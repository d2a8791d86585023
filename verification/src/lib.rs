//! The decisions of a command-line HTTP client, with their proofs.
//!
//! The client sends GET or POST requests to URLs given on the command line
//! or listed in a batch file, and writes each response to the terminal.
//! This library holds everything that it decides on the way: which
//! arguments are valid, which requests a command amounts to, what the
//! lines of a rendered response are, and with which exit code the process
//! ends. Contracts are stated over texts as `Seq<char>` and over the views
//! of the library's types. Talking to the network, the file system and the
//! terminal is left to the program around it.

pub mod batch;
pub mod error;
pub mod gate;
pub mod render;
pub mod request;
pub mod response;
pub mod text;
pub mod validate;
