//! Rendering a response: the lines to write, each made of styled spans,
//! and what is to happen once they are written.

use crate::response::{
    declared_type, declares_json, get_content_type, is_json, Body, BodyView, MediaType, Response,
    ResponseView,
};
use crate::error::{Error, ErrorView};
use crate::gate::{exit_code, exit_code_of};
use crate::request::Pair;
use crate::text::{decimal, push_decimal};
use vstd::prelude::*;
use vstd::string::StringExecFns;

verus! {

/// How a span is to be shown.
#[derive(Debug, Clone, Copy, PartialEq, Eq, Structural)]
pub enum Style {
    Plain,
    Red,
    Blue,
    Green,
    Cyan,
}

/// A piece of text in one style.
#[derive(Debug, Clone, PartialEq, Eq)]
pub struct Span {
    pub style: Style,
    pub text: String,
}

/// The mathematical value of a [`Span`].
pub type SpanView = (Style, Seq<char>);

/// A line of output: its spans are written one after the other, and a
/// line break after the last. A line without spans is a blank line.
pub type Line = Vec<Span>;

/// The mathematical value of a [`Line`].
pub type LineView = Seq<SpanView>;

impl View for Span {
    type V = SpanView;

    open spec fn view(&self) -> SpanView {
        (self.style, self.text@)
    }
}

impl DeepView for Span {
    type V = SpanView;

    open spec fn deep_view(&self) -> SpanView {
        self@
    }
}

/// What is to happen once the lines of a response are written.
#[derive(Debug, Clone, PartialEq, Eq)]
pub enum Verdict {
    /// Go on with the next request, or end with success.
    Proceed,
    /// End the process with this exit code.
    Exit(i32),
    /// Give up with this error.
    Fail(Error),
}

/// The mathematical value of a [`Verdict`].
pub enum VerdictView {
    Proceed,
    Exit(i32),
    Fail(ErrorView),
}

impl View for Verdict {
    type V = VerdictView;

    open spec fn view(&self) -> VerdictView {
        match self {
            Verdict::Proceed => VerdictView::Proceed,
            Verdict::Exit(code) => VerdictView::Exit(*code),
            Verdict::Fail(e) => VerdictView::Fail(e@),
        }
    }
}

/// The rendering of a response: the lines to write and what follows.
#[derive(Debug, Clone, PartialEq, Eq)]
pub struct Report {
    pub lines: Vec<Line>,
    pub verdict: Verdict,
}

/// The mathematical value of a [`Report`].
pub struct ReportView {
    pub lines: Seq<LineView>,
    pub verdict: VerdictView,
}

impl View for Report {
    type V = ReportView;

    open spec fn view(&self) -> ReportView {
        ReportView { lines: self.lines.deep_view(), verdict: self.verdict@ }
    }
}

/// What `jsonxf::pretty_print` makes of a text: the reformatted text, or
/// the message with which it gives up.
pub uninterp spec fn pretty_json(text: Seq<char>) -> Result<Seq<char>, Seq<char>>;

/// Reformats `text` with `jsonxf::pretty_print`. The formatter reads its
/// input and nothing else, so its result is a function of `text`; that
/// function is only given a name here, `pretty_json`.
#[verifier::external_body]
fn pretty_print(text: &str) -> (r: Result<String, String>)
    ensures
        (match r {
            Ok(t) => Ok(t@),
            Err(why) => Err(why@),
        }) == pretty_json(text@),
{
    jsonxf::pretty_print(text)
}

/// The status is a client error.
pub open spec fn is_client_error(status: u16) -> bool {
    400 <= status < 500
}

/// The status is a server error.
pub open spec fn is_server_error(status: u16) -> bool {
    500 <= status < 600
}

/// The notice that precedes the status line of a failed request: one red
/// line for a client error, one for a server error, none otherwise.
pub open spec fn notice_lines(status: u16) -> Seq<LineView> {
    if is_client_error(status) {
        seq![seq![(Style::Red, "Error Client Status: "@ + decimal(status as nat))]]
    } else if is_server_error(status) {
        seq![seq![(Style::Red, "Error Server Status: "@ + decimal(status as nat))]]
    } else {
        Seq::empty()
    }
}

/// The status line: version, status code and reason phrase, in blue.
pub open spec fn status_line(version: Seq<char>, status: u16, reason: Seq<char>) -> LineView {
    seq![(Style::Blue, version + " "@ + decimal(status as nat) + " "@ + reason)]
}

/// The line of one header: the name in green, the value in cyan.
pub open spec fn header_line(header: Pair) -> LineView {
    seq![(Style::Green, header.0), (Style::Plain, ": "@), (Style::Cyan, header.1)]
}

/// The header block: one line per header, in order, then a blank line.
pub open spec fn header_lines(headers: Seq<Pair>) -> Seq<LineView> {
    headers.map_values(|h: Pair| header_line(h)).push(Seq::empty())
}

/// The line that stands for a body that could not be read.
pub open spec fn unreadable_line(why: Seq<char>) -> LineView {
    seq![(Style::Plain, "Failed to read response body: "@ + why)]
}

/// The line of a body that the formatter has been through: the
/// reformatted text in cyan, or the error that the formatter's refusal
/// amounts to.
pub open spec fn formatted_line(pretty: Result<Seq<char>, Seq<char>>) -> Result<
    LineView,
    ErrorView,
> {
    match pretty {
        Ok(text) => Ok(seq![(Style::Cyan, text)]),
        Err(why) => Err(ErrorView::MalformedJsonBody(why)),
    }
}

/// The line of a body: reformatted where the declared type is JSON, as it
/// came otherwise.
pub open spec fn body_line(media: Option<Pair>, body: Seq<char>) -> Result<LineView, ErrorView> {
    if is_json(media) {
        formatted_line(pretty_json(body))
    } else {
        Ok(seq![(Style::Cyan, body)])
    }
}

/// What follows a response that was written in full: nothing where its
/// status earns the exit code 0, the end of the process with the exit code
/// that it earns otherwise.
pub open spec fn gate_verdict(expected: u16, actual: u16) -> VerdictView {
    if exit_code_of(expected, actual) == 0 {
        VerdictView::Proceed
    } else {
        VerdictView::Exit(exit_code_of(expected, actual))
    }
}

/// The lines that come whatever the body is: the notice, the status line
/// and the header block.
pub open spec fn head_lines(response: ResponseView) -> Seq<LineView> {
    notice_lines(response.status).push(
        status_line(response.version, response.status, response.reason),
    ) + header_lines(response.headers)
}

/// The body of `response` can be written: it could not be read, which
/// takes one line to say, or its line exists.
pub open spec fn renders_in_full(response: ResponseView) -> bool {
    match response.body {
        BodyView::Unreadable(_) => true,
        BodyView::Text(text) => body_line(declared_type(response.headers), text) is Ok,
    }
}

/// The rendering of `response`, with `expected` as the expected status.
/// The notice, the status line and the header block always come. A body
/// that could not be read leaves a line that says so. A body that is
/// declared as JSON and refused by the formatter leaves no line and fails
/// the rendering. Only a response that was written in full is held to the
/// expected status.
pub open spec fn report_of(response: ResponseView, expected: u16) -> ReportView {
    let head = head_lines(response);
    let after = gate_verdict(expected, response.status);
    match response.body {
        BodyView::Unreadable(why) => ReportView {
            lines: head.push(unreadable_line(why)),
            verdict: after,
        },
        BodyView::Text(text) => match body_line(declared_type(response.headers), text) {
            Ok(line) => ReportView { lines: head.push(line), verdict: after },
            Err(e) => ReportView { lines: head, verdict: VerdictView::Fail(e) },
        },
    }
}

/// A line of one span.
fn single(style: Style, text: String) -> (r: Line)
    ensures
        r.deep_view() == seq![(style, text@)],
{
    let mut line: Line = Vec::new();
    line.push(Span { style, text });
    line
}

/// The notice for `status`, where it is an error status.
pub fn print_notice(status: u16) -> (r: Vec<Line>)
    ensures
        r.deep_view() == notice_lines(status),
{
    let mut lines: Vec<Line> = Vec::new();
    if 400 <= status && status < 500 {
        let mut text = "Error Client Status: ".to_owned();
        push_decimal(&mut text, status);
        lines.push(single(Style::Red, text));
    } else if 500 <= status && status < 600 {
        let mut text = "Error Server Status: ".to_owned();
        push_decimal(&mut text, status);
        lines.push(single(Style::Red, text));
    }
    lines
}

/// The status line of `response`.
pub fn print_status(response: &Response) -> (r: Line)
    ensures
        r.deep_view() == status_line(response.version@, response.status, response.reason@),
{
    let mut text = response.version.clone();
    text.append(" ");
    push_decimal(&mut text, response.status);
    text.append(" ");
    text.append(response.reason.as_str());
    single(Style::Blue, text)
}

/// The header block of `response`.
pub fn print_headers(response: &Response) -> (r: Vec<Line>)
    ensures
        r.deep_view() == header_lines(response.headers.deep_view()),
{
    let headers = &response.headers;
    let mut lines: Vec<Line> = Vec::new();
    let mut i: usize = 0;
    while i < headers.len()
        invariant
            i <= headers.len(),
            lines.deep_view() == headers.deep_view().take(i as int).map_values(
                |h: Pair| header_line(h),
            ),
        decreases headers.len() - i,
    {
        let ghost before = lines.deep_view();
        let mut line: Line = Vec::new();
        line.push(Span { style: Style::Green, text: headers[i].name.clone() });
        line.push(Span { style: Style::Plain, text: ": ".to_owned() });
        line.push(Span { style: Style::Cyan, text: headers[i].value.clone() });
        proof {
            assert(line.deep_view() =~= header_line(headers[i as int]@));
        }
        lines.push(line);
        proof {
            assert(lines.deep_view() =~= before.push(header_line(headers[i as int]@)));
        }
        i += 1;
    }
    let ghost before = lines.deep_view();
    let blank: Line = Vec::new();
    proof {
        assert(blank.deep_view() =~= Seq::<SpanView>::empty());
    }
    lines.push(blank);
    proof {
        assert(lines.deep_view() =~= before.push(Seq::<SpanView>::empty()));
    }
    lines
}

/// The line of a body that the formatter has been through.
pub fn print_formatted(pretty: Result<String, String>) -> (r: Result<Line, Error>)
    ensures
        (match r {
            Ok(line) => Ok(line.deep_view()),
            Err(e) => Err(e@),
        }) == formatted_line(
            match pretty {
                Ok(t) => Ok(t@),
                Err(why) => Err(why@),
            },
        ),
{
    match pretty {
        Ok(text) => Ok(single(Style::Cyan, text)),
        Err(why) => Err(Error::MalformedJsonBody(why)),
    }
}

/// The line of the body `body` under the declared media type `media`.
pub fn print_body(media: &Option<MediaType>, body: &String) -> (r: Result<Line, Error>)
    ensures
        (match r {
            Ok(line) => Ok(line.deep_view()),
            Err(e) => Err(e@),
        }) == body_line(
            match media {
                Some(m) => Some(m@),
                None => None,
            },
            body@,
        ),
{
    if declares_json(media) {
        print_formatted(pretty_print(body.as_str()))
    } else {
        Ok(single(Style::Cyan, body.clone()))
    }
}

/// What follows a response with status `actual` that was written in full.
pub fn gate(expected: u16, actual: u16) -> (r: Verdict)
    ensures
        r@ == gate_verdict(expected, actual),
{
    let code: i32 = exit_code(expected, actual);
    if code == 0 {
        Verdict::Proceed
    } else {
        Verdict::Exit(code)
    }
}

/// Renders `response` and decides what follows, with `expected` as the
/// expected status (0 for none).
pub fn print_resp(response: &Response, expected: u16) -> (r: Report)
    ensures
        r@ == report_of(response@, expected),
{
    let mut lines = print_notice(response.status);
    let ghost notice = lines.deep_view();
    lines.push(print_status(response));
    proof {
        assert(lines.deep_view() =~= notice.push(
            status_line(response.version@, response.status, response.reason@),
        ));
    }
    let ghost upper = lines.deep_view();
    let mut headers = print_headers(response);
    let ghost block = headers.deep_view();
    lines.append(&mut headers);
    proof {
        assert(lines.deep_view() =~= upper + block);
    }
    let ghost head = lines.deep_view();
    match &response.body {
        Body::Unreadable(why) => {
            let mut text = "Failed to read response body: ".to_owned();
            text.append(why.as_str());
            lines.push(single(Style::Plain, text));
            proof {
                assert(lines.deep_view() =~= head.push(unreadable_line(why@)));
            }
            Report { lines, verdict: gate(expected, response.status) }
        },
        Body::Text(text) => {
            let media = get_content_type(response);
            match print_body(&media, text) {
                Ok(line) => {
                    let ghost l = line.deep_view();
                    lines.push(line);
                    proof {
                        assert(lines.deep_view() =~= head.push(l));
                    }
                    Report { lines, verdict: gate(expected, response.status) }
                },
                Err(e) => Report { lines, verdict: Verdict::Fail(e) },
            }
        },
    }
}

/// With no expected status the process is never ended for a status: a
/// response that can be written in full is followed by the next step,
/// whatever its status.
pub proof fn lemma_nothing_expected(response: ResponseView)
    ensures
        !(report_of(response, 0).verdict is Exit),
        renders_in_full(response) ==> report_of(response, 0).verdict is Proceed,
{
}

/// A response that can be written in full and has another status than the
/// expected one ends the process with exit code 1, after the same lines
/// that are written when nothing is expected.
pub proof fn lemma_unexpected_status(response: ResponseView, expected: u16)
    requires
        expected != 0,
        expected != response.status,
        renders_in_full(response),
    ensures
        report_of(response, expected).verdict == VerdictView::Exit(1),
        report_of(response, expected).lines == report_of(response, 0).lines,
        report_of(response, expected).lines.len() == head_lines(response).len() + 1,
{
}

/// The lines of a response do not depend on the expected status.
pub proof fn lemma_lines_without_gate(response: ResponseView, a: u16, b: u16)
    ensures
        report_of(response, a).lines == report_of(response, b).lines,
{
}

} // verus!
