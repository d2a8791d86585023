use httpie::batch::{read_batch, BatchEntry};
use httpie::request::{batch, Dispatch, RequestSpec, Verb};

fn accepted(url: &str) -> BatchEntry {
    BatchEntry::Accepted(url.to_string())
}

fn rejected(line: &str) -> BatchEntry {
    BatchEntry::Rejected(line.to_string())
}

fn get_of(url: &str) -> Dispatch {
    Dispatch {
        request: RequestSpec { verb: Verb::Get, url: url.to_string(), body: None },
        expected: 0,
    }
}

#[test]
fn batch_with_comment_blank_url_and_junk() {
    let text = "# comment\n\n\nhttp://x.test\nnot-a-url\n";
    let entries = read_batch(text);
    assert_eq!(entries, vec![accepted("http://x.test"), rejected("not-a-url")]);
    assert_eq!(batch(&entries), vec![get_of("http://x.test")]);
}

#[test]
fn empty_batch_has_no_entries() {
    assert_eq!(read_batch(""), Vec::<BatchEntry>::new());
    assert_eq!(read_batch("\n\n"), Vec::<BatchEntry>::new());
    assert_eq!(read_batch("   \n\t\n # only a comment"), Vec::<BatchEntry>::new());
}

#[test]
fn batch_keeps_order_and_duplicates() {
    let text = "https://b.test\nhttp://a.test\nhttps://b.test";
    let entries = read_batch(text);
    assert_eq!(
        entries,
        vec![accepted("https://b.test"), accepted("http://a.test"), accepted("https://b.test")]
    );
    assert_eq!(
        batch(&entries),
        vec![get_of("https://b.test"), get_of("http://a.test"), get_of("https://b.test")]
    );
}

#[test]
fn batch_lines_are_trimmed() {
    let text = "  http://a.test \t\r\n\u{a0}https://b.test\u{3000}\r\n  # note\r\n x y \r\n";
    assert_eq!(
        read_batch(text),
        vec![accepted("http://a.test"), accepted("https://b.test"), rejected("x y")]
    );
}

#[test]
fn batch_comment_needs_its_mark_first() {
    let text = "http://a.test # trailing\nx#y\n#http://b.test\n";
    assert_eq!(read_batch(text), vec![accepted("http://a.test # trailing"), rejected("x#y")]);
}

#[test]
fn batch_without_final_line_break() {
    assert_eq!(read_batch("http://a.test"), vec![accepted("http://a.test")]);
    assert_eq!(read_batch("\nhttp://a.test"), vec![accepted("http://a.test")]);
    assert_eq!(read_batch("junk"), vec![rejected("junk")]);
}

#[test]
fn batch_agrees_with_line_by_line_reading() {
    let text = "a\r\n\r\n#c\nhttp://x\n  https://y  \n\nftp://z\n   #d\nhttp://x\n\u{2028}q\u{2028}";
    let mut want = Vec::new();
    for line in text.lines() {
        let t = line.trim();
        if t.is_empty() || t.starts_with('#') {
            continue;
        }
        if t.starts_with("http://") || t.starts_with("https://") {
            want.push(accepted(t));
        } else {
            want.push(rejected(t));
        }
    }
    assert_eq!(read_batch(text), want);
}

#[test]
fn batch_of_rejected_lines_sends_nothing() {
    let entries = vec![rejected("a"), rejected("b")];
    assert_eq!(batch(&entries), Vec::<Dispatch>::new());
    assert_eq!(batch(&Vec::new()), Vec::<Dispatch>::new());
}
