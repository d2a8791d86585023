//! A response as plain values, and its declared content type: which
//! header holds it and what it says about the body.

use crate::request::{Header, Pair};
use crate::text::{chars_of, eq_ignore_ascii_case, same_chars, same_ignoring_ascii_case};
use vstd::prelude::*;

verus! {

/// A media type: its top-level type and its subtype, as the parser hands
/// them out.
#[derive(Debug, Clone, PartialEq, Eq)]
pub struct MediaType {
    pub type_: String,
    pub subtype: String,
}

impl View for MediaType {
    type V = Pair;

    open spec fn view(&self) -> Pair {
        (self.type_@, self.subtype@)
    }
}

/// The body of a response: its text, or why it could not be read as text.
#[derive(Debug, Clone, PartialEq, Eq)]
pub enum Body {
    Text(String),
    Unreadable(String),
}

/// The mathematical value of a [`Body`].
pub enum BodyView {
    Text(Seq<char>),
    Unreadable(Seq<char>),
}

impl View for Body {
    type V = BodyView;

    open spec fn view(&self) -> BodyView {
        match self {
            Body::Text(t) => BodyView::Text(t@),
            Body::Unreadable(why) => BodyView::Unreadable(why@),
        }
    }
}

/// A response as the renderer sees it: the protocol version, the status
/// code with its reason phrase, the headers in the order in which they
/// came, and the body.
#[derive(Debug, Clone, PartialEq, Eq)]
pub struct Response {
    pub version: String,
    pub status: u16,
    pub reason: String,
    pub headers: Vec<Header>,
    pub body: Body,
}

/// The mathematical value of a [`Response`].
pub struct ResponseView {
    pub version: Seq<char>,
    pub status: u16,
    pub reason: Seq<char>,
    pub headers: Seq<Pair>,
    pub body: BodyView,
}

impl View for Response {
    type V = ResponseView;

    open spec fn view(&self) -> ResponseView {
        ResponseView {
            version: self.version@,
            status: self.status,
            reason: self.reason@,
            headers: self.headers.deep_view(),
            body: self.body@,
        }
    }
}

/// The type and subtype that the `mime` crate reads out of a header value,
/// or `None` where it refuses the value.
pub uninterp spec fn media_type_of(value: Seq<char>) -> Option<Pair>;

/// Parses `value` with `mime::Mime::from_str` and hands out what
/// `Mime::type_` and `Mime::subtype` say of the result. Nothing is claimed
/// of the grammar: the result is only given its name, `media_type_of`.
#[verifier::external_body]
fn parse_media_type(value: &str) -> (r: Option<MediaType>)
    ensures
        (match r {
            Some(m) => Some(m@),
            None => None,
        }) == media_type_of(value@),
{
    match value.parse::<mime::Mime>() {
        Ok(m) => Some(
            MediaType {
                type_: m.type_().as_str().to_string(),
                subtype: m.subtype().as_str().to_string(),
            },
        ),
        Err(_) => None,
    }
}

/// Whether `name` names the content type header. Header names do not
/// depend on the case of their letters.
pub open spec fn is_content_type_name(name: Seq<char>) -> bool {
    eq_ignore_ascii_case(name, "content-type"@)
}

/// The value of the first content type header among `headers`.
pub open spec fn content_type_value(headers: Seq<Pair>) -> Option<Seq<char>>
    decreases headers.len(),
{
    if headers.len() == 0 {
        None
    } else if is_content_type_name(headers[0].0) {
        Some(headers[0].1)
    } else {
        content_type_value(headers.skip(1))
    }
}

/// The media type that `headers` declare: what the parser makes of the
/// first content type header, and `None` without such a header.
pub open spec fn declared_type(headers: Seq<Pair>) -> Option<Pair> {
    match content_type_value(headers) {
        Some(value) => media_type_of(value),
        None => None,
    }
}

/// The media type is `application/json`, whatever its parameters.
pub open spec fn is_json(media: Option<Pair>) -> bool {
    media matches Some(m) && m.0 == "application"@ && m.1 == "json"@
}

/// The value of the first content type header among `headers`.
pub fn find_content_type(headers: &Vec<Header>) -> (r: Option<&String>)
    ensures
        (match r {
            Some(value) => Some(value@),
            None => None,
        }) == content_type_value(headers.deep_view()),
{
    let wanted = chars_of("content-type");
    let mut i: usize = 0;
    proof {
        assert(headers.deep_view().skip(0) =~= headers.deep_view());
    }
    while i < headers.len()
        invariant
            i <= headers.len(),
            wanted@ == "content-type"@,
            content_type_value(headers.deep_view()) == content_type_value(
                headers.deep_view().skip(i as int),
            ),
        decreases headers.len() - i,
    {
        let name = chars_of(headers[i].name.as_str());
        proof {
            assert(headers.deep_view().skip(i as int).skip(1) =~= headers.deep_view().skip(i + 1));
        }
        if same_ignoring_ascii_case(&name, &wanted) {
            return Some(&headers[i].value);
        }
        i += 1;
    }
    None
}

/// The media type that the headers of `response` declare, if they declare
/// one that the parser accepts.
pub fn get_content_type(response: &Response) -> (r: Option<MediaType>)
    ensures
        (match r {
            Some(m) => Some(m@),
            None => None,
        }) == declared_type(response@.headers),
{
    match find_content_type(&response.headers) {
        Some(value) => parse_media_type(value.as_str()),
        None => None,
    }
}

/// Whether `media` is `application/json`.
pub fn declares_json(media: &Option<MediaType>) -> (r: bool)
    ensures
        r == is_json(
            match media {
                Some(m) => Some(m@),
                None => None,
            },
        ),
{
    match media {
        Some(m) => {
            let t = chars_of(m.type_.as_str());
            let s = chars_of(m.subtype.as_str());
            let application = chars_of("application");
            let json = chars_of("json");
            same_chars(&t, &application) && same_chars(&s, &json)
        },
        None => false,
    }
}

} // verus!
