//! Validation of what the command line supplies: URLs, `key=value` tokens
//! and the source of a batch.

use crate::error::{Error, ErrorView};
use crate::text::{
    chars_of, find_char, first_index, lemma_first_index, same_chars, starts_with_at, string_of,
};
use vstd::prelude::*;

verus! {

/// An absolute HTTP or HTTPS URL: text that starts with one of the two
/// schemes.
pub open spec fn is_url(s: Seq<char>) -> bool {
    "http://"@.is_prefix_of(s) || "https://"@.is_prefix_of(s)
}

/// The one `=` of `s` stands at `i`, with text on both sides of it.
pub open spec fn splits_at(s: Seq<char>, i: int) -> bool {
    &&& 0 < i < s.len() - 1
    &&& s[i] == '='
    &&& forall|j: int| 0 <= j < s.len() && j != i ==> s[j] != '='
}

/// `s` is a `key=value` token.
pub open spec fn is_key_value(s: Seq<char>) -> bool {
    exists|i: int| splits_at(s, i)
}

/// The key and the value of the token `s`, where it is one.
pub open spec fn key_value_of(s: Seq<char>) -> Option<(Seq<char>, Seq<char>)> {
    if is_key_value(s) {
        let i = first_index(s, '=');
        Some((s.take(i), s.skip(i + 1)))
    } else {
        None
    }
}

/// The sentinel that stands for "no file".
pub open spec fn is_inline_source(path: Seq<char>) -> bool {
    path == "-"@
}

/// A key and its value, both non-empty.
#[derive(Debug, Clone, PartialEq, Eq)]
pub struct KeyValue {
    pub key: String,
    pub value: String,
}

impl View for KeyValue {
    type V = (Seq<char>, Seq<char>);

    open spec fn view(&self) -> (Seq<char>, Seq<char>) {
        (self.key@, self.value@)
    }
}

impl KeyValue {
    /// Neither the key nor the value is empty.
    pub open spec fn well_formed(&self) -> bool {
        self.key@.len() > 0 && self.value@.len() > 0
    }
}

impl DeepView for KeyValue {
    type V = (Seq<char>, Seq<char>);

    open spec fn deep_view(&self) -> (Seq<char>, Seq<char>) {
        self@
    }
}

/// Whether the characters `v[from..to]` form a URL.
pub fn is_url_at(v: &Vec<char>, from: usize, to: usize) -> (r: bool)
    requires
        from <= to <= v.len(),
    ensures
        r == is_url(v@.subrange(from as int, to as int)),
{
    let http = chars_of("http://");
    let https = chars_of("https://");
    starts_with_at(v, from, to, &http) || starts_with_at(v, from, to, &https)
}

/// Accepts `s` where it is a URL and hands it back; otherwise reports it
/// as an invalid URL.
pub fn parse_url(s: &str) -> (r: Result<String, Error>)
    ensures
        match r {
            Ok(url) => is_url(s@) && url@ == s@,
            Err(e) => !is_url(s@) && e@ == ErrorView::InvalidUrl(s@),
        },
{
    let v = chars_of(s);
    if is_url_at(&v, 0, v.len()) {
        Ok(s.to_owned())
    } else {
        Err(Error::InvalidUrl(s.to_owned()))
    }
}

/// Whether `path` is the sentinel `-`.
pub fn is_inline(path: &str) -> (r: bool)
    ensures
        r == is_inline_source(path@),
{
    let v = chars_of(path);
    let dash = chars_of("-");
    same_chars(&v, &dash)
}

/// Accepts `path` where it is the sentinel `-` or names something that
/// exists; `present` says whether the caller found such an entry.
pub fn verify_file(path: &str, present: bool) -> (r: Result<String, Error>)
    ensures
        match r {
            Ok(p) => (is_inline_source(path@) || present) && p@ == path@,
            Err(e) => !is_inline_source(path@) && !present && e@ == ErrorView::FileNotFound(path@),
        },
{
    if is_inline(path) || present {
        Ok(path.to_owned())
    } else {
        Err(Error::FileNotFound(path.to_owned()))
    }
}

impl KeyValue {
    /// Splits `s` at its `=`. The token must hold exactly one `=`, with
    /// text before and after it.
    pub fn from_str(s: &str) -> (r: Result<KeyValue, Error>)
        ensures
            match r {
                Ok(kv) => key_value_of(s@) == Some(kv@) && kv.well_formed(),
                Err(e) => key_value_of(s@) is None && e@ == ErrorView::InvalidKeyValue(s@),
            },
    {
        let v = chars_of(s);
        let n: usize = v.len();
        let i: usize = find_char(&v, 0, n, '=');
        proof {
            assert(v@.subrange(0, n as int) == v@);
            lemma_first_index(v@, '=');
        }
        if i == 0 || i >= n - 1 {
            // No `=` at all, or the first one with nothing before or
            // after it: no place can split the token.
            assert(!is_key_value(v@));
            return Err(Error::InvalidKeyValue(s.to_owned()));
        }
        let j: usize = find_char(&v, i + 1, n, '=');
        proof {
            lemma_first_index(v@.subrange(i + 1, n as int), '=');
        }
        if j < n {
            // A second `=` follows the first.
            assert(!is_key_value(v@));
            return Err(Error::InvalidKeyValue(s.to_owned()));
        }
        proof {
            assert forall|k: int| 0 <= k < n && k != i implies v@[k] != '=' by {
                if k > i {
                    assert(v@.subrange(i + 1, n as int)[k - (i + 1)] == v@[k]);
                }
            }
            assert(splits_at(v@, i as int));
        }
        Ok(KeyValue { key: string_of(&v, 0, i), value: string_of(&v, i + 1, n) })
    }
}

/// Reads one `key=value` argument.
pub fn parse_key_value(s: &str) -> (r: Result<KeyValue, Error>)
    ensures
        match r {
            Ok(kv) => key_value_of(s@) == Some(kv@) && kv.well_formed(),
            Err(e) => key_value_of(s@) is None && e@ == ErrorView::InvalidKeyValue(s@),
        },
{
    KeyValue::from_str(s)
}

/// A token with one `=` and text on both sides of it is accepted, and its
/// key and value are what stands before and after that `=`.
pub proof fn lemma_key_value_accepts(s: Seq<char>, i: int)
    requires
        splits_at(s, i),
    ensures
        key_value_of(s) == Some((s.take(i), s.skip(i + 1))),
{
    lemma_first_index(s, '=');
}

/// A token with no `=`, with more than one, or with nothing before or
/// after it, is refused.
pub proof fn lemma_key_value_rejects(s: Seq<char>)
    requires
        ({
            ||| forall|j: int| 0 <= j < s.len() ==> s[j] != '='
            ||| exists|i: int, j: int| 0 <= i < j < s.len() && s[i] == '=' && s[j] == '='
            ||| s.len() > 0 && (s.first() == '=' || s.last() == '=')
        }),
    ensures
        key_value_of(s) is None,
{
}

} // verus!
