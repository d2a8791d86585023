//! Building requests: the verb, the URL and, for POST, the body that the
//! `key=value` arguments describe.

use crate::batch::{accepted_urls, BatchEntry, BatchEntryView};
use crate::validate::{is_inline, is_inline_source, KeyValue};
use vstd::prelude::*;

verus! {

/// Two texts that belong together: a key with its value, a header's name
/// with its value, a media type with its subtype.
pub type Pair = (Seq<char>, Seq<char>);

/// The HTTP method of a request.
#[derive(Debug, Clone, Copy, PartialEq, Eq, Structural)]
pub enum Verb {
    Get,
    Post,
}

/// A header: its name and its value.
#[derive(Debug, Clone, PartialEq, Eq)]
pub struct Header {
    pub name: String,
    pub value: String,
}

impl View for Header {
    type V = Pair;

    open spec fn view(&self) -> Pair {
        (self.name@, self.value@)
    }
}

impl DeepView for Header {
    type V = Pair;

    open spec fn deep_view(&self) -> Pair {
        self@
    }
}

/// A request that is ready to be sent. `body` is `None` for GET; for POST
/// it holds the entries of the JSON object to send, no key twice.
#[derive(Debug, Clone, PartialEq, Eq)]
pub struct RequestSpec {
    pub verb: Verb,
    pub url: String,
    pub body: Option<Vec<KeyValue>>,
}

/// The mathematical value of a [`RequestSpec`].
pub struct RequestView {
    pub verb: Verb,
    pub url: Seq<char>,
    pub body: Option<Seq<Pair>>,
}

impl RequestView {
    /// A GET carries no body; a POST carries one, in which no key occurs
    /// twice.
    pub open spec fn well_formed(self) -> bool {
        match self.verb {
            Verb::Get => self.body is None,
            Verb::Post => self.body matches Some(entries) && distinct_keys(entries),
        }
    }
}

impl View for RequestSpec {
    type V = RequestView;

    open spec fn view(&self) -> RequestView {
        RequestView {
            verb: self.verb,
            url: self.url@,
            body: match self.body {
                Some(entries) => Some(entries.deep_view()),
                None => None,
            },
        }
    }
}

/// A request together with the status that its response is expected to
/// have; 0 where no status is expected.
#[derive(Debug, Clone, PartialEq, Eq)]
pub struct Dispatch {
    pub request: RequestSpec,
    pub expected: u16,
}

/// The mathematical value of a [`Dispatch`].
pub struct DispatchView {
    pub request: RequestView,
    pub expected: u16,
}

impl View for Dispatch {
    type V = DispatchView;

    open spec fn view(&self) -> DispatchView {
        DispatchView { request: self.request@, expected: self.expected }
    }
}

impl DeepView for Dispatch {
    type V = DispatchView;

    open spec fn deep_view(&self) -> DispatchView {
        self@
    }
}

/// The arguments of `get`: a URL, and a file of URLs or `-` for none.
#[derive(Debug, Clone, PartialEq, Eq)]
pub struct Get {
    pub url: String,
    pub file: String,
}

/// The arguments of `post`: a URL and the pairs that make the body.
#[derive(Debug, Clone, PartialEq, Eq)]
pub struct Post {
    pub url: String,
    pub body: Vec<KeyValue>,
}

/// What the command line asks for.
#[derive(Debug, Clone, PartialEq, Eq)]
pub enum SubCommand {
    Get(Get),
    Post(Post),
}

/// What to do first for a command.
#[derive(Debug, Clone, PartialEq, Eq)]
pub enum Plan {
    /// Send this one request.
    Single(Dispatch),
    /// Read the batch file at this path, then send what it lists.
    Batch(String),
}

/// The mathematical value of a [`Plan`].
pub enum PlanView {
    Single(DispatchView),
    Batch(Seq<char>),
}

impl View for Plan {
    type V = PlanView;

    open spec fn view(&self) -> PlanView {
        match self {
            Plan::Single(d) => PlanView::Single(d@),
            Plan::Batch(path) => PlanView::Batch(path@),
        }
    }
}

/// The index of the first entry with key `key`, or `entries.len()` where
/// no entry has it.
pub open spec fn key_index(entries: Seq<Pair>, key: Seq<char>) -> int
    decreases entries.len(),
{
    if entries.len() == 0 || entries[0].0 == key {
        0
    } else {
        1 + key_index(entries.skip(1), key)
    }
}

/// The entries of the body that `pairs` describe: each key once, at the
/// place where it first occurred, with the value that was given last.
pub open spec fn merged(pairs: Seq<Pair>) -> Seq<Pair>
    decreases pairs.len(),
{
    if pairs.len() == 0 {
        Seq::empty()
    } else {
        let init = merged(pairs.drop_last());
        let i = key_index(init, pairs.last().0);
        if 0 <= i < init.len() {
            init.update(i, pairs.last())
        } else {
            init.push(pairs.last())
        }
    }
}

/// No key occurs twice in `entries`.
pub open spec fn distinct_keys(entries: Seq<Pair>) -> bool {
    forall|i: int, j: int|
        0 <= i < j < entries.len() ==> (#[trigger] entries[i]).0 != (#[trigger] entries[j]).0
}

/// The mapping that results from inserting `pairs` one after the other: a
/// later pair replaces an earlier one with the same key.
pub open spec fn mapping_of(pairs: Seq<Pair>) -> Map<Seq<char>, Seq<char>>
    decreases pairs.len(),
{
    if pairs.len() == 0 {
        Map::empty()
    } else {
        mapping_of(pairs.drop_last()).insert(pairs.last().0, pairs.last().1)
    }
}

/// The GET request for `url`.
pub open spec fn get_request(url: Seq<char>) -> RequestView {
    RequestView { verb: Verb::Get, url, body: None }
}

/// The POST request for `url` whose body `pairs` describe.
pub open spec fn post_request(url: Seq<char>, pairs: Seq<Pair>) -> RequestView {
    RequestView { verb: Verb::Post, url, body: Some(merged(pairs)) }
}

/// The requests of a batch: one GET per accepted URL, in order, none with
/// an expected status.
pub open spec fn batch_dispatches(entries: Seq<BatchEntryView>) -> Seq<DispatchView> {
    accepted_urls(entries).map_values(
        |url: Seq<char>| DispatchView { request: get_request(url), expected: 0 },
    )
}

/// The plan of `get`: one request where the file is `-`, else the batch
/// at that path.
pub open spec fn get_plan(url: Seq<char>, file: Seq<char>, code: u16) -> PlanView {
    if is_inline_source(file) {
        PlanView::Single(DispatchView { request: get_request(url), expected: code })
    } else {
        PlanView::Batch(file)
    }
}

/// The request of `post` with its expected status.
pub open spec fn post_dispatch(url: Seq<char>, pairs: Seq<Pair>, code: u16) -> DispatchView {
    DispatchView { request: post_request(url, pairs), expected: code }
}

/// The plan for a command.
pub open spec fn plan_of(cmd: SubCommand, code: u16) -> PlanView {
    match cmd {
        SubCommand::Get(args) => get_plan(args.url@, args.file@, code),
        SubCommand::Post(args) => PlanView::Single(
            post_dispatch(args.url@, args.body.deep_view(), code),
        ),
    }
}

/// `key_index` is within bounds, points at an entry with the key where it
/// is inside `entries`, and no entry before it has the key.
pub proof fn lemma_key_index(entries: Seq<Pair>, key: Seq<char>)
    ensures
        0 <= key_index(entries, key) <= entries.len(),
        key_index(entries, key) < entries.len() ==> entries[key_index(entries, key)].0 == key,
        forall|j: int| 0 <= j < key_index(entries, key) ==> (#[trigger] entries[j]).0 != key,
    decreases entries.len(),
{
    if entries.len() > 0 && entries[0].0 != key {
        let rest = entries.skip(1);
        lemma_key_index(rest, key);
        assert forall|j: int| 0 <= j < key_index(entries, key) implies (#[trigger] entries[j]).0
            != key by {
            if j > 0 {
                assert(entries[j] == rest[j - 1]);
            }
        }
    }
}

/// An index `k` with no entry of the key before it, which is the end of
/// `entries` or holds the key, is `key_index(entries, key)`.
pub proof fn lemma_key_index_is(entries: Seq<Pair>, key: Seq<char>, k: int)
    requires
        0 <= k <= entries.len(),
        forall|j: int| 0 <= j < k ==> (#[trigger] entries[j]).0 != key,
        k < entries.len() ==> entries[k].0 == key,
    ensures
        key_index(entries, key) == k,
    decreases entries.len(),
{
    if entries.len() > 0 && entries[0].0 != key {
        let rest = entries.skip(1);
        assert forall|j: int| 0 <= j < k - 1 implies (#[trigger] rest[j]).0 != key by {
            assert(rest[j] == entries[j + 1]);
        }
        lemma_key_index_is(rest, key, k - 1);
    }
}

/// An entry with the key at `j` puts `key_index` at `j` or before it.
pub proof fn lemma_key_index_le(entries: Seq<Pair>, key: Seq<char>, j: int)
    requires
        0 <= j < entries.len(),
        entries[j].0 == key,
    ensures
        0 <= key_index(entries, key) <= j,
        entries[key_index(entries, key)].0 == key,
{
    lemma_key_index(entries, key);
}

/// For entries without a repeated key, the mapping holds each entry, and
/// each key of the mapping is the key of an entry.
pub proof fn lemma_entries_mapping(entries: Seq<Pair>)
    requires
        distinct_keys(entries),
    ensures
        forall|i: int|
            0 <= i < entries.len() ==> mapping_of(entries).contains_pair(
                (#[trigger] entries[i]).0,
                entries[i].1,
            ),
        forall|k: Seq<char>| #[trigger]
            mapping_of(entries).dom().contains(k) ==> 0 <= key_index(entries, k) < entries.len()
                && entries[key_index(entries, k)].0 == k,
    decreases entries.len(),
{
    if entries.len() > 0 {
        let init = entries.drop_last();
        let last = entries.last();
        assert(distinct_keys(init)) by {
            assert forall|a: int, b: int| 0 <= a < b < init.len() implies (#[trigger] init[a]).0
                != (#[trigger] init[b]).0 by {
                assert(entries[a].0 != entries[b].0);
            }
        }
        lemma_entries_mapping(init);
        assert forall|i: int| 0 <= i < entries.len() implies mapping_of(entries).contains_pair(
            (#[trigger] entries[i]).0,
            entries[i].1,
        ) by {
            if i < init.len() {
                // An earlier entry has another key than the last, so the
                // last insertion leaves it alone.
                assert(init[i] == entries[i]);
                assert(entries[i].0 != entries[entries.len() - 1].0);
            }
        }
        assert forall|k: Seq<char>| #[trigger]
            mapping_of(entries).dom().contains(k) implies 0 <= key_index(entries, k)
            < entries.len() && entries[key_index(entries, k)].0 == k by {
            if k == last.0 {
                lemma_key_index_le(entries, k, entries.len() - 1);
            } else {
                assert(mapping_of(init).dom().contains(k));
                let a = key_index(init, k);
                assert(entries[a] == init[a]);
                lemma_key_index_le(entries, k, a);
            }
        }
    }
}

/// No key occurs twice in the body.
pub proof fn lemma_merged_distinct(pairs: Seq<Pair>)
    ensures
        distinct_keys(merged(pairs)),
    decreases pairs.len(),
{
    if pairs.len() > 0 {
        let init = merged(pairs.drop_last());
        let last = pairs.last();
        let m = merged(pairs);
        lemma_merged_distinct(pairs.drop_last());
        lemma_key_index(init, last.0);
        assert forall|a: int, b: int| 0 <= a < b < m.len() implies (#[trigger] m[a]).0 != (
        #[trigger] m[b]).0 by {
            if b < init.len() {
                // Both stood in `init`, where the keys are those of `m`.
                assert(init[a].0 != init[b].0);
            } else {
                // `m[b]` was pushed because no entry of `init` has its key.
                assert(init[a].0 != last.0);
            }
        }
    }
}

/// Looking a key up in the body gives what inserting the pairs one after
/// the other into a map gives: the value that was given last wins.
pub proof fn lemma_merged_last_wins(pairs: Seq<Pair>)
    ensures
        mapping_of(merged(pairs)) == mapping_of(pairs),
    decreases pairs.len(),
{
    if pairs.len() > 0 {
        let init = merged(pairs.drop_last());
        let last = pairs.last();
        let i = key_index(init, last.0);
        let m = merged(pairs);
        lemma_merged_last_wins(pairs.drop_last());
        lemma_merged_distinct(pairs.drop_last());
        lemma_merged_distinct(pairs);
        lemma_entries_mapping(init);
        lemma_entries_mapping(m);
        lemma_key_index(init, last.0);
        // `m` is `init` but for one place, `at`, where it holds `last`.
        let at = if 0 <= i < init.len() {
            i
        } else {
            init.len() as int
        };
        assert(m[at] == last);
        assert forall|j: int| 0 <= j < init.len() && j != at implies m[j] == init[j] by {}
        let want = mapping_of(init).insert(last.0, last.1);
        assert forall|k: Seq<char>| mapping_of(m).dom().contains(k) implies #[trigger]
            want.dom().contains(k) && mapping_of(m)[k] == want[k] by {
            let a = key_index(m, k);
            assert(mapping_of(m).contains_pair(m[a].0, m[a].1));
            if a != at {
                assert(m[a].0 != m[at].0);
                assert(mapping_of(init).contains_pair(init[a].0, init[a].1));
            }
        }
        assert forall|k: Seq<char>| #[trigger] want.dom().contains(k) implies mapping_of(
            m,
        ).dom().contains(k) by {
            if k == last.0 {
                assert(mapping_of(m).contains_pair(m[at].0, m[at].1));
            } else {
                assert(mapping_of(init).dom().contains(k));
                let a = key_index(init, k);
                assert(m[a] == init[a]);
                assert(mapping_of(m).contains_pair(m[a].0, m[a].1));
            }
        }
        assert(mapping_of(m) =~= want);
    }
}

/// What every client is set up with.
#[derive(Debug, Clone, PartialEq, Eq)]
pub struct ClientSettings {
    /// Whether the system's proxy is used.
    pub use_proxy: bool,
    /// The headers sent with every request.
    pub headers: Vec<Header>,
}

/// The headers that every request carries.
pub open spec fn fixed_headers() -> Seq<Pair> {
    seq![("accept"@, "*/*"@), ("user-agent"@, "rust-client"@)]
}

/// The settings of the client: no proxy, and the fixed headers.
pub fn client_settings() -> (r: ClientSettings)
    ensures
        !r.use_proxy,
        r.headers.deep_view() == fixed_headers(),
{
    let mut headers: Vec<Header> = Vec::new();
    headers.push(Header { name: "accept".to_owned(), value: "*/*".to_owned() });
    headers.push(Header { name: "user-agent".to_owned(), value: "rust-client".to_owned() });
    ClientSettings { use_proxy: false, headers }
}

/// The position of the first entry with key `key`, or `entries.len()`.
pub fn find_key(entries: &Vec<KeyValue>, key: &String) -> (k: usize)
    ensures
        k <= entries.len(),
        k == key_index(entries.deep_view(), key@),
{
    let mut k: usize = 0;
    while k < entries.len() && entries[k].key != *key
        invariant
            k <= entries.len(),
            forall|j: int| 0 <= j < k ==> (#[trigger] entries.deep_view()[j]).0 != key@,
        decreases entries.len() - k,
    {
        k += 1;
    }
    proof {
        lemma_key_index_is(entries.deep_view(), key@, k as int);
    }
    k
}

/// The body that `pairs` describe: each key once, where it first stood,
/// with the value that was given last.
pub fn build_body(pairs: &Vec<KeyValue>) -> (r: Vec<KeyValue>)
    ensures
        r.deep_view() == merged(pairs.deep_view()),
        distinct_keys(r.deep_view()),
        mapping_of(r.deep_view()) == mapping_of(pairs.deep_view()),
{
    let mut out: Vec<KeyValue> = Vec::new();
    let mut i: usize = 0;
    while i < pairs.len()
        invariant
            i <= pairs.len(),
            out.deep_view() == merged(pairs.deep_view().take(i as int)),
        decreases pairs.len() - i,
    {
        let entry = KeyValue { key: pairs[i].key.clone(), value: pairs[i].value.clone() };
        let k: usize = find_key(&out, &entry.key);
        proof {
            // One more pair is merged into what the pairs before it gave.
            let upto = pairs.deep_view().take(i + 1);
            assert(upto.drop_last() =~= pairs.deep_view().take(i as int));
        }
        if k < out.len() {
            out.set(k, entry);
        } else {
            out.push(entry);
        }
        i += 1;
    }
    proof {
        assert(pairs.deep_view().take(pairs.len() as int) =~= pairs.deep_view());
        lemma_merged_distinct(pairs.deep_view());
        lemma_merged_last_wins(pairs.deep_view());
    }
    out
}

/// What `get` does first: with `-` for the file, one GET request for the
/// URL, held to the expected status `code`; with any other file, the batch
/// at that path, whatever the URL.
pub fn get(args: &Get, code: u16) -> (r: Plan)
    ensures
        r@ == get_plan(args.url@, args.file@, code),
        r matches Plan::Single(d) ==> d.request@.well_formed(),
{
    if is_inline(args.file.as_str()) {
        Plan::Single(
            Dispatch {
                request: RequestSpec { verb: Verb::Get, url: args.url.clone(), body: None },
                expected: code,
            },
        )
    } else {
        Plan::Batch(args.file.clone())
    }
}

/// The requests of a batch: one GET for each accepted entry, in order. No
/// status is expected of a batch's responses.
pub fn batch(entries: &Vec<BatchEntry>) -> (r: Vec<Dispatch>)
    ensures
        r.deep_view() == batch_dispatches(entries.deep_view()),
        forall|i: int|
            0 <= i < r.len() ==> (#[trigger] r[i]).request@.well_formed() && r[i].expected == 0,
{
    let mut out: Vec<Dispatch> = Vec::new();
    let mut i: usize = 0;
    while i < entries.len()
        invariant
            i <= entries.len(),
            out.deep_view() == batch_dispatches(entries.deep_view().take(i as int)),
            forall|j: int|
                0 <= j < out.len() ==> (#[trigger] out[j]).request@.well_formed()
                    && out[j].expected == 0,
        decreases entries.len() - i,
    {
        let ghost before = out.deep_view();
        proof {
            let upto = entries.deep_view().take(i + 1);
            assert(upto.drop_last() =~= entries.deep_view().take(i as int));
        }
        match &entries[i] {
            BatchEntry::Accepted(url) => {
                let d = Dispatch {
                    request: RequestSpec { verb: Verb::Get, url: url.clone(), body: None },
                    expected: 0,
                };
                out.push(d);
                proof {
                    assert(batch_dispatches(entries.deep_view().take(i + 1)) =~= before.push(d@));
                }
            },
            BatchEntry::Rejected(_) => {},
        }
        i += 1;
    }
    proof {
        assert(entries.deep_view().take(entries.len() as int) =~= entries.deep_view());
    }
    out
}

/// The POST request of `post`, held to the expected status `code`. Its
/// body is made of the pairs; where a key is given twice, the later value
/// replaces the earlier.
pub fn post(args: &Post, code: u16) -> (r: Dispatch)
    ensures
        r@ == post_dispatch(args.url@, args.body.deep_view(), code),
        r.request@.well_formed(),
{
    Dispatch {
        request: RequestSpec {
            verb: Verb::Post,
            url: args.url.clone(),
            body: Some(build_body(&args.body)),
        },
        expected: code,
    }
}

/// What to do first for the command `cmd`, with the expected status
/// `code`.
pub fn plan(cmd: &SubCommand, code: u16) -> (r: Plan)
    ensures
        r@ == plan_of(*cmd, code),
        r matches Plan::Single(d) ==> d.request@.well_formed(),
{
    match cmd {
        SubCommand::Get(args) => get(args, code),
        SubCommand::Post(args) => Plan::Single(post(args, code)),
    }
}

} // verus!
