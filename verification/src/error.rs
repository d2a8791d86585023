//! The errors that validation and rendering report.

use vstd::prelude::*;

verus! {

/// What went wrong, with the input that caused it.
#[derive(Debug, Clone, PartialEq, Eq)]
pub enum Error {
    /// The text does not start with `http://` or `https://`.
    InvalidUrl(String),
    /// The token is not `key=value` with two non-empty sides and one `=`.
    InvalidKeyValue(String),
    /// The path is neither `-` nor an existing file.
    FileNotFound(String),
    /// The body was declared as JSON and the formatter refused it; the text
    /// is the formatter's own.
    MalformedJsonBody(String),
}

/// The mathematical value of an [`Error`].
pub enum ErrorView {
    InvalidUrl(Seq<char>),
    InvalidKeyValue(Seq<char>),
    FileNotFound(Seq<char>),
    MalformedJsonBody(Seq<char>),
}

impl View for Error {
    type V = ErrorView;

    open spec fn view(&self) -> ErrorView {
        match self {
            Error::InvalidUrl(s) => ErrorView::InvalidUrl(s@),
            Error::InvalidKeyValue(s) => ErrorView::InvalidKeyValue(s@),
            Error::FileNotFound(s) => ErrorView::FileNotFound(s@),
            Error::MalformedJsonBody(s) => ErrorView::MalformedJsonBody(s@),
        }
    }
}

/// The text shown to the user for an error.
pub open spec fn message_of(e: ErrorView) -> Seq<char> {
    match e {
        ErrorView::InvalidUrl(_) => "URL must start with http:// or https://"@,
        ErrorView::InvalidKeyValue(_) => "Key value pair must be in the format key=value"@,
        ErrorView::FileNotFound(_) => "File not found"@,
        ErrorView::MalformedJsonBody(m) => m,
    }
}

impl Error {
    /// The text shown to the user for this error.
    pub fn message(&self) -> (r: String)
        ensures
            r@ == message_of(self@),
    {
        match self {
            Error::InvalidUrl(_) => "URL must start with http:// or https://".to_owned(),
            Error::InvalidKeyValue(_) => "Key value pair must be in the format key=value".to_owned(),
            Error::FileNotFound(_) => "File not found".to_owned(),
            Error::MalformedJsonBody(m) => m.clone(),
        }
    }
}

} // verus!
