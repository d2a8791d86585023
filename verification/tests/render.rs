use httpie::response::{
    declares_json, find_content_type, get_content_type, Body, MediaType, Response,
};
use httpie::error::Error;
use httpie::gate::exit_code;
use httpie::render::{
    gate, print_body, print_formatted, print_headers, print_notice, print_resp, print_status, Line,
    Report, Span, Style, Verdict,
};
use httpie::request::Header;

fn header(name: &str, value: &str) -> Header {
    Header { name: name.to_string(), value: value.to_string() }
}

fn span(style: Style, text: &str) -> Span {
    Span { style, text: text.to_string() }
}

fn response(status: u16, reason: &str, headers: Vec<Header>, body: &str) -> Response {
    Response {
        version: "HTTP/1.1".to_string(),
        status,
        reason: reason.to_string(),
        headers,
        body: Body::Text(body.to_string()),
    }
}

fn with_headers(headers: Vec<Header>) -> Response {
    response(200, "OK", headers, "")
}

fn media(type_: &str, subtype: &str) -> Option<MediaType> {
    Some(MediaType { type_: type_.to_string(), subtype: subtype.to_string() })
}

#[test]
fn json_body_is_reformatted() {
    let r = response(200, "OK", vec![header("Content-Type", "application/json")], "{\"a\":1}");
    let report = print_resp(&r, 0);
    assert_eq!(
        report,
        Report {
            lines: vec![
                vec![span(Style::Blue, "HTTP/1.1 200 OK")],
                vec![
                    span(Style::Green, "Content-Type"),
                    span(Style::Plain, ": "),
                    span(Style::Cyan, "application/json"),
                ],
                vec![],
                vec![span(Style::Cyan, "{\n  \"a\": 1\n}")],
            ],
            verdict: Verdict::Proceed,
        }
    );
}

#[test]
fn plain_body_is_written_as_it_came() {
    let r = response(200, "OK", vec![header("Content-Type", "text/plain")], "hello");
    let report = print_resp(&r, 0);
    assert_eq!(report.lines.last(), Some(&vec![span(Style::Cyan, "hello")]));
    assert_eq!(report.verdict, Verdict::Proceed);
}

#[test]
fn body_without_declared_type_is_written_as_it_came() {
    let r = response(200, "OK", vec![header("server", "x")], "{\"a\":1}");
    let report = print_resp(&r, 0);
    assert_eq!(report.lines.last(), Some(&vec![span(Style::Cyan, "{\"a\":1}")]));
}

#[test]
fn body_with_unparsable_type_is_written_as_it_came() {
    let r = response(200, "OK", vec![header("content-type", "json")], "{\"a\":1}");
    let report = print_resp(&r, 0);
    assert_eq!(report.lines.last(), Some(&vec![span(Style::Cyan, "{\"a\":1}")]));
}

#[test]
fn unexpected_status_ends_with_exit_code_one() {
    let r = response(404, "Not Found", vec![header("content-type", "text/plain")], "gone");
    let report = print_resp(&r, 200);
    assert_eq!(
        report,
        Report {
            lines: vec![
                vec![span(Style::Red, "Error Client Status: 404")],
                vec![span(Style::Blue, "HTTP/1.1 404 Not Found")],
                vec![
                    span(Style::Green, "content-type"),
                    span(Style::Plain, ": "),
                    span(Style::Cyan, "text/plain"),
                ],
                vec![],
                vec![span(Style::Cyan, "gone")],
            ],
            verdict: Verdict::Exit(1),
        }
    );
    assert_eq!(exit_code(200, 404), 1);
}

#[test]
fn no_expected_status_never_ends_the_process() {
    let mut status: u16 = 0;
    loop {
        assert_eq!(exit_code(0, status), 0);
        assert_eq!(gate(0, status), Verdict::Proceed);
        if status == u16::MAX {
            break;
        }
        status += 1;
    }
    let r = response(500, "Internal Server Error", vec![], "");
    assert_eq!(print_resp(&r, 0).verdict, Verdict::Proceed);
}

#[test]
fn expected_status_is_compared_exactly() {
    assert_eq!(exit_code(200, 200), 0);
    assert_eq!(exit_code(200, 201), 1);
    assert_eq!(exit_code(404, 404), 0);
    assert_eq!(exit_code(404, 0), 1);
    assert_eq!(gate(200, 200), Verdict::Proceed);
    assert_eq!(gate(200, 500), Verdict::Exit(1));
}

#[test]
fn notice_for_error_statuses_only() {
    assert_eq!(print_notice(200), Vec::<Line>::new());
    assert_eq!(print_notice(399), Vec::<Line>::new());
    assert_eq!(print_notice(400), vec![vec![span(Style::Red, "Error Client Status: 400")]]);
    assert_eq!(print_notice(499), vec![vec![span(Style::Red, "Error Client Status: 499")]]);
    assert_eq!(print_notice(500), vec![vec![span(Style::Red, "Error Server Status: 500")]]);
    assert_eq!(print_notice(599), vec![vec![span(Style::Red, "Error Server Status: 599")]]);
    assert_eq!(print_notice(600), Vec::<Line>::new());
}

#[test]
fn status_line_holds_version_code_and_reason() {
    let mut r = response(503, "Service Unavailable", vec![], "");
    r.version = "HTTP/2.0".to_string();
    assert_eq!(print_status(&r), vec![span(Style::Blue, "HTTP/2.0 503 Service Unavailable")]);
}

#[test]
fn header_block_ends_with_a_blank_line() {
    let r = response(200, "OK", vec![], "");
    assert_eq!(print_headers(&r), vec![Vec::<Span>::new()]);
    let r = response(200, "OK", vec![header("a", "1"), header("b", ""), header("a", "2")], "");
    assert_eq!(
        print_headers(&r),
        vec![
            vec![span(Style::Green, "a"), span(Style::Plain, ": "), span(Style::Cyan, "1")],
            vec![span(Style::Green, "b"), span(Style::Plain, ": "), span(Style::Cyan, "")],
            vec![span(Style::Green, "a"), span(Style::Plain, ": "), span(Style::Cyan, "2")],
            vec![],
        ]
    );
}

#[test]
fn unreadable_body_is_reported_and_not_fatal() {
    let mut r = response(200, "OK", vec![header("content-type", "application/json")], "");
    r.body = Body::Unreadable("error decoding response body".to_string());
    let report = print_resp(&r, 200);
    assert_eq!(
        report.lines.last(),
        Some(&vec![span(Style::Plain, "Failed to read response body: error decoding response body")])
    );
    assert_eq!(report.lines.len(), 4);
    assert_eq!(report.verdict, Verdict::Proceed);
    assert_eq!(print_resp(&r, 201).verdict, Verdict::Exit(1));
}

#[test]
fn refused_json_is_a_malformed_body() {
    assert_eq!(
        print_formatted(Err("bad".to_string())),
        Err(Error::MalformedJsonBody("bad".to_string()))
    );
    assert_eq!(print_formatted(Ok("{}".to_string())), Ok(vec![span(Style::Cyan, "{}")]));
}

#[test]
fn body_is_reformatted_for_json_only() {
    let body = "[1,{\"k\":[]}]".to_string();
    assert_eq!(
        print_body(&media("application", "json"), &body),
        Ok(vec![span(Style::Cyan, "[\n  1,\n  {\n    \"k\": []\n  }\n]")])
    );
    assert_eq!(print_body(&media("text", "json"), &body), Ok(vec![span(Style::Cyan, "[1,{\"k\":[]}]")]));
    assert_eq!(
        print_body(&media("application", "xml"), &body),
        Ok(vec![span(Style::Cyan, "[1,{\"k\":[]}]")])
    );
    assert_eq!(print_body(&None, &body), Ok(vec![span(Style::Cyan, "[1,{\"k\":[]}]")]));
}

#[test]
fn json_is_declared_by_type_and_subtype() {
    assert!(declares_json(&media("application", "json")));
    assert!(!declares_json(&media("application", "JSON")));
    assert!(!declares_json(&media("application", "vnd.api")));
    assert!(!declares_json(&media("text", "json")));
    assert!(!declares_json(&None));
}

#[test]
fn content_type_is_parsed() {
    let hs = vec![header("server", "x"), header("Content-Type", "Application/JSON; charset=utf-8")];
    assert_eq!(get_content_type(&with_headers(hs)), media("application", "json"));
    let hs = vec![header("content-type", "text/html")];
    assert_eq!(get_content_type(&with_headers(hs)), media("text", "html"));
    let hs = vec![header("content-type", "image/svg+xml")];
    assert_eq!(get_content_type(&with_headers(hs)), media("image", "svg"));
    let hs = vec![header("content-type", "*/*")];
    assert_eq!(get_content_type(&with_headers(hs)), media("*", "*"));
}

#[test]
fn content_type_that_does_not_parse_is_none() {
    for value in ["", "application", "a b/c", "/json", "application/json; charset"] {
        assert_eq!(get_content_type(&with_headers(vec![header("content-type", value)])), None);
    }
    assert_eq!(get_content_type(&with_headers(vec![header("content-length", "3")])), None);
    assert_eq!(get_content_type(&with_headers(Vec::new())), None);
}

#[test]
fn first_content_type_header_counts() {
    let hs = vec![
        header("accept", "*/*"),
        header("CONTENT-TYPE", "text/plain"),
        header("content-type", "application/json"),
    ];
    assert_eq!(find_content_type(&hs), Some(&"text/plain".to_string()));
    assert_eq!(get_content_type(&with_headers(hs)), media("text", "plain"));
    assert_eq!(find_content_type(&vec![header("content_type", "text/plain")]), None);
}

#[test]
fn json_with_parameters_is_reformatted() {
    let r = response(
        201,
        "Created",
        vec![header("content-type", "application/json; charset=utf-8")],
        "{\"a\":\"1\",\"b\":\"2\"}",
    );
    let report = print_resp(&r, 201);
    assert_eq!(
        report.lines.last(),
        Some(&vec![span(Style::Cyan, "{\n  \"a\": \"1\",\n  \"b\": \"2\"\n}")])
    );
    assert_eq!(report.verdict, Verdict::Proceed);
}
