//! The batch source: a text of URLs, one per line, with blank lines and
//! `#` comments.

use crate::text::{chars_of, find_char, first_index, string_of, trim, trim_bounds};
use crate::validate::{is_url, is_url_at};
use vstd::prelude::*;

verus! {

/// What became of one line of the batch that is neither blank nor a
/// comment. Both variants hold the line without the white space around it.
#[derive(Debug, Clone, PartialEq, Eq)]
pub enum BatchEntry {
    /// The line is a URL, to be requested.
    Accepted(String),
    /// The line is no URL; it is reported and passed over.
    Rejected(String),
}

/// The mathematical value of a [`BatchEntry`].
pub enum BatchEntryView {
    Accepted(Seq<char>),
    Rejected(Seq<char>),
}

impl BatchEntryView {
    /// An accepted entry holds a URL; a rejected entry holds text that is
    /// no URL, not empty and no comment.
    pub open spec fn well_formed(self) -> bool {
        match self {
            BatchEntryView::Accepted(url) => is_url(url),
            BatchEntryView::Rejected(line) => !is_url(line) && line.len() > 0 && line[0] != '#',
        }
    }
}

impl View for BatchEntry {
    type V = BatchEntryView;

    open spec fn view(&self) -> BatchEntryView {
        match self {
            BatchEntry::Accepted(s) => BatchEntryView::Accepted(s@),
            BatchEntry::Rejected(s) => BatchEntryView::Rejected(s@),
        }
    }
}

impl DeepView for BatchEntry {
    type V = BatchEntryView;

    open spec fn deep_view(&self) -> BatchEntryView {
        self@
    }
}

/// What one line of the batch stands for: nothing where it is blank or a
/// comment, else an entry that holds the trimmed line.
pub open spec fn classify(line: Seq<char>) -> Option<BatchEntryView> {
    let t = trim(line);
    if t.len() == 0 || t[0] == '#' {
        None
    } else if is_url(t) {
        Some(BatchEntryView::Accepted(t))
    } else {
        Some(BatchEntryView::Rejected(t))
    }
}

/// The entries of a batch text, in the order of its lines. Lines end at a
/// line feed; a carriage return before it is white space and trimmed away.
pub open spec fn batch_entries(text: Seq<char>) -> Seq<BatchEntryView>
    decreases text.len(),
{
    if text.len() == 0 {
        Seq::empty()
    } else {
        let i = first_index(text, '\n');
        let head = match classify(text.take(i)) {
            Some(e) => seq![e],
            None => Seq::empty(),
        };
        if 0 <= i < text.len() {
            head + batch_entries(text.skip(i + 1))
        } else {
            head
        }
    }
}

/// The URLs among `entries`, in order.
pub open spec fn accepted_urls(entries: Seq<BatchEntryView>) -> Seq<Seq<char>>
    decreases entries.len(),
{
    if entries.len() == 0 {
        Seq::empty()
    } else {
        let init = accepted_urls(entries.drop_last());
        match entries.last() {
            BatchEntryView::Accepted(url) => init.push(url),
            BatchEntryView::Rejected(_) => init,
        }
    }
}

/// Every entry of a batch is well formed: blank lines and comments leave
/// none, and a line is accepted exactly where it is a URL.
pub proof fn lemma_batch_entries_well_formed(text: Seq<char>)
    ensures
        forall|i: int|
            0 <= i < batch_entries(text).len() ==> (#[trigger] batch_entries(text)[i]).well_formed(),
    decreases text.len(),
{
    if text.len() > 0 {
        let i = first_index(text, '\n');
        let head = match classify(text.take(i)) {
            Some(e) => seq![e],
            None => Seq::empty(),
        };
        assert forall|k: int| 0 <= k < head.len() implies (#[trigger] head[k]).well_formed() by {}
        if 0 <= i < text.len() {
            let tail = batch_entries(text.skip(i + 1));
            lemma_batch_entries_well_formed(text.skip(i + 1));
            assert forall|k: int| 0 <= k < (head + tail).len() implies (#[trigger] (head
                + tail)[k]).well_formed() by {}
        }
    }
}

/// Reads a batch text line by line. Blank lines and lines whose first
/// character after the white space is `#` leave no entry; every other line
/// is accepted where it is a URL and rejected where it is not. Order is
/// kept and nothing is merged.
pub fn read_batch(text: &str) -> (r: Vec<BatchEntry>)
    ensures
        r.deep_view() == batch_entries(text@),
        forall|i: int| 0 <= i < r.len() ==> (#[trigger] r[i])@.well_formed(),
{
    let v = chars_of(text);
    let n: usize = v.len();
    let mut out: Vec<BatchEntry> = Vec::new();
    let mut pos: usize = 0;
    proof {
        assert(v@.skip(0) == v@);
    }
    while pos < n
        invariant
            pos <= n == v.len(),
            out.deep_view() + batch_entries(v@.skip(pos as int)) == batch_entries(v@),
        decreases n - pos,
    {
        let ghost rest = v@.skip(pos as int);
        let end: usize = find_char(&v, pos, n, '\n');
        let (lo, hi): (usize, usize) = trim_bounds(&v, pos, end);
        proof {
            // The line that is read now is the first line of what is left.
            assert(rest.take(end - pos) == v@.subrange(pos as int, end as int));
        }
        if lo < hi && v[lo] != '#' {
            let line = string_of(&v, lo, hi);
            let entry = if is_url_at(&v, lo, hi) {
                BatchEntry::Accepted(line)
            } else {
                BatchEntry::Rejected(line)
            };
            out.push(entry);
        }
        if end < n {
            proof {
                assert(rest.skip(end - pos + 1) == v@.skip(end + 1));
            }
            pos = end + 1;
        } else {
            pos = n;
        }
    }
    proof {
        lemma_batch_entries_well_formed(text@);
        assert forall|i: int| 0 <= i < out.len() implies (#[trigger] out[i])@.well_formed() by {
            assert(out.deep_view()[i] == out[i]@);
        }
    }
    out
}

} // verus!
