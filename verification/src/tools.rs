//! The tools of the server: their arguments, and what they decide.

use crate::client::{ClientError, ClientView, LibraryRef, Request, ZoteroClient};
use crate::error::{ErrorKind, McpError};
use crate::json::{
    object, pretty_text, put_field, single, text_list, views, Entries, Json, JsonObject, JsonView,
};
use crate::text::{has_text, texts};
use crate::types::{
    are_compact, compact_items, CompactItem, ZoteroCollection, ZoteroItem,
};
use vstd::prelude::*;
use vstd::string::*;

verus! {

/// How many items a search returns at most where nothing else is asked for.
pub fn default_search_limit() -> (r: usize)
    ensures
        r == 25,
{
    25
}

/// How many items are listed as recent where nothing else is asked for.
pub fn default_recent() -> (r: usize)
    ensures
        r == 10,
{
    10
}

/// Lists are compact where nothing else is asked for.
pub fn default_true() -> (r: bool)
    ensures
        r,
{
    true
}

/// The arguments of a search.
#[derive(Debug)]
pub struct SearchArgs {
    pub query: String,
    pub limit: usize,
    pub compact: bool,
    pub library: Option<LibraryRef>,
}

impl SearchArgs {
    /// A search for which nothing but the query is given.
    pub fn new(query: String) -> (r: SearchArgs)
        ensures
            r.query == query,
            r.limit == 25,
            r.compact,
            r.library is None,
    {
        SearchArgs {
            query,
            limit: default_search_limit(),
            compact: default_true(),
            library: None,
        }
    }
}

/// The key of an item.
#[derive(Debug)]
pub struct KeyArgs {
    pub key: String,
    pub library: Option<LibraryRef>,
}

/// The arguments of a list of the items that were added last.
#[derive(Debug)]
pub struct RecentArgs {
    pub n: usize,
    pub compact: bool,
    pub library: Option<LibraryRef>,
}

impl RecentArgs {
    /// A list for which nothing is given.
    pub fn new() -> (r: RecentArgs)
        ensures
            r.n == 10,
            r.compact,
            r.library is None,
    {
        RecentArgs { n: default_recent(), compact: default_true(), library: None }
    }
}

/// The arguments of a list of the items of a collection.
#[derive(Debug)]
pub struct CollectionArgs {
    pub id: String,
    pub compact: bool,
    pub library: Option<LibraryRef>,
}

impl CollectionArgs {
    /// A list for which nothing but the collection is given.
    pub fn new(id: String) -> (r: CollectionArgs)
        ensures
            r.id == id,
            r.compact,
            r.library is None,
    {
        CollectionArgs { id, compact: default_true(), library: None }
    }
}

/// The DOI of an article to be added.
#[derive(Debug)]
pub struct DoiArgs {
    pub doi: String,
    pub library: Option<LibraryRef>,
}

/// The web address of an item to be added.
#[derive(Debug)]
pub struct UrlArgs {
    pub url: String,
    pub library: Option<LibraryRef>,
}

/// The arguments of a merge of two items.
#[derive(Debug)]
pub struct MergeArgs {
    pub key1: String,
    pub key2: String,
    /// Whether to preview the merge and write nothing.
    pub dry_run: bool,
    /// The key of the item that survives; the first one where none is given.
    pub keep: Option<String>,
    pub library: Option<LibraryRef>,
}

/// A format of citations.
#[derive(Debug, Clone, Copy, PartialEq, Eq, Structural)]
pub enum CitationFormat {
    Bibtex,
    Biblatex,
    Csljson,
    Ris,
}

impl CitationFormat {
    /// The name of the format in the API.
    pub open spec fn token(self) -> Seq<char> {
        match self {
            CitationFormat::Bibtex => "bibtex"@,
            CitationFormat::Biblatex => "biblatex"@,
            CitationFormat::Csljson => "csljson"@,
            CitationFormat::Ris => "ris"@,
        }
    }

    /// The name of the format in the API.
    pub fn as_str(&self) -> (r: &'static str)
        ensures
            r@ == self.token(),
    {
        match self {
            CitationFormat::Bibtex => "bibtex",
            CitationFormat::Biblatex => "biblatex",
            CitationFormat::Csljson => "csljson",
            CitationFormat::Ris => "ris",
        }
    }
}

/// The arguments of an export of citations.
#[derive(Debug)]
pub struct ExportCitationArgs {
    pub keys: Vec<String>,
    pub format: CitationFormat,
    pub library: Option<LibraryRef>,
}

/// The arguments of a request for an item.
#[derive(Debug)]
pub struct GetArgs {
    pub key: String,
    pub compact: bool,
    pub library: Option<LibraryRef>,
}

/// The arguments of a list that needs no more than a library.
#[derive(Debug)]
pub struct LibraryOnlyArgs {
    pub library: Option<LibraryRef>,
}

/// An item and a collection.
#[derive(Debug)]
pub struct CollectionMembershipArgs {
    pub key: String,
    pub collection_id: String,
    pub library: Option<LibraryRef>,
}

/// A change of the membership of an item in a collection.
#[derive(Debug, Clone, Copy, PartialEq, Eq, Structural)]
pub enum CollectionOp {
    Add,
    Remove,
}

/// A change of the tags of an item.
#[derive(Debug, Clone, Copy, PartialEq, Eq, Structural)]
pub enum SetTagsMode {
    Add,
    Remove,
    Replace,
}

/// The arguments of a change of tags.
#[derive(Debug)]
pub struct SetTagsArgs {
    pub key: String,
    pub tags: Vec<String>,
    pub mode: SetTagsMode,
    pub library: Option<LibraryRef>,
}

impl SetTagsArgs {
    /// A change for which nothing but the item and the tags is given: they are
    /// added.
    pub fn new(key: String, tags: Vec<String>) -> (r: SetTagsArgs)
        ensures
            r.key == key,
            r.tags == tags,
            r.mode == SetTagsMode::Add,
            r.library is None,
    {
        SetTagsArgs { key, tags, mode: SetTagsMode::Add, library: None }
    }
}

/// Everything but a text.
pub open spec fn other_than(target: Seq<char>) -> spec_fn(Seq<char>) -> bool {
    |c: Seq<char>| c != target
}

/// The collections of an item after a change, and whether anything changed.
pub open spec fn collection_op(
    current: Seq<Seq<char>>,
    target: Seq<char>,
    op: CollectionOp,
) -> (Seq<Seq<char>>, bool) {
    match (op, current.contains(target)) {
        (CollectionOp::Add, false) => (current.push(target), true),
        (CollectionOp::Remove, true) => (current.filter(other_than(target)), true),
        _ => (current, false),
    }
}

/// Copies a list of strings.
fn copy(v: &[String]) -> (r: Vec<String>)
    ensures
        texts(r@) == texts(v@),
{
    let mut out: Vec<String> = Vec::new();
    let mut i: usize = 0;
    while i < v.len()
        invariant
            i <= v.len(),
            out.len() == i,
            forall|j: int| 0 <= j < i ==> (#[trigger] out@[j])@ == v@[j]@,
        decreases v.len() - i,
    {
        out.push(v[i].clone());
        i += 1;
    }
    assert(texts(out@) =~= texts(v@));
    out
}

/// Copies the strings that are not among others.
fn without(v: &[String], others: &[String]) -> (r: Vec<String>)
    ensures
        texts(r@) == texts(v@).filter(|t: Seq<char>| !texts(others@).contains(t)),
{
    let mut out: Vec<String> = Vec::new();
    let ghost all = texts(v@);
    let ghost p = |t: Seq<char>| !texts(others@).contains(t);
    let mut i: usize = 0;
    proof {
        reveal(Seq::filter);
        assert(all.take(0) =~= Seq::empty());
        assert(texts(out@) =~= Seq::empty());
    }
    while i < v.len()
        invariant
            i <= v.len(),
            all == texts(v@),
            p == (|t: Seq<char>| !texts(others@).contains(t)),
            texts(out@) == all.take(i as int).filter(p),
        decreases v.len() - i,
    {
        let ghost earlier = texts(out@);
        proof {
            reveal(Seq::filter);
            assert(all.take(i + 1).drop_last() =~= all.take(i as int));
            assert(all.take(i + 1).last() == v@[i as int]@);
        }
        if !has_text(others, v[i].as_str()) {
            out.push(v[i].clone());
            assert(texts(out@) =~= earlier.push(v@[i as int]@));
        }
        i += 1;
    }
    assert(all.take(all.len() as int) =~= all);
    out
}

/// The collections of an item after it was put into one or taken out of one, and
/// whether anything changed. Where nothing did, nothing needs to be written.
pub fn apply_collection_op(current: &[String], target: &str, op: CollectionOp) -> (r: (
    Vec<String>,
    bool,
))
    ensures
        (texts(r.0@), r.1) == collection_op(texts(current@), target@, op),
{
    let present = has_text(current, target);
    match (op, present) {
        (CollectionOp::Add, true) => (copy(current), false),
        (CollectionOp::Add, false) => {
            let mut next = copy(current);
            let ghost first = texts(next@);
            next.push(target.to_owned());
            assert(texts(next@) =~= first.push(target@));
            (next, true)
        },
        (CollectionOp::Remove, false) => (copy(current), false),
        (CollectionOp::Remove, true) => {
            let mut one: Vec<String> = Vec::new();
            one.push(target.to_owned());
            let next = without(current, one.as_slice());
            proof {
                assert(texts(one@) =~= seq![target@]);
                let p = |t: Seq<char>| !texts(one@).contains(t);
                let q = other_than(target@);
                assert forall|t: Seq<char>| #[trigger] p(t) == q(t) by {
                    assert(seq![target@].contains(t) <==> t == target@) by {
                        assert(seq![target@][0] == target@);
                    }
                }
                assert(p =~= q);
            }
            (next, true)
        },
    }
}

/// A list with the texts of another behind it that it does not hold yet, in their
/// order and each once.
pub open spec fn with_missing(current: Seq<Seq<char>>, more: Seq<Seq<char>>) -> Seq<Seq<char>>
    decreases more.len(),
{
    if more.len() == 0 {
        current
    } else {
        let front = with_missing(current, more.drop_last());
        if front.contains(more.last()) {
            front
        } else {
            front.push(more.last())
        }
    }
}

/// Whether two lists hold the same texts.
pub open spec fn same_members(a: Seq<Seq<char>>, b: Seq<Seq<char>>) -> bool {
    forall|t: Seq<char>| #[trigger] a.contains(t) <==> b.contains(t)
}

/// The tags of an item after a change, and whether anything changed. Tags are told
/// apart by case.
pub open spec fn tags_op(
    current: Seq<Seq<char>>,
    tags: Seq<Seq<char>>,
    mode: SetTagsMode,
) -> (Seq<Seq<char>>, bool) {
    match mode {
        SetTagsMode::Add => {
            let next = with_missing(current, tags);
            (next, next != current)
        },
        SetTagsMode::Remove => {
            let next = current.filter(|t: Seq<char>| !tags.contains(t));
            (next, next != current)
        },
        SetTagsMode::Replace => if same_members(current, tags) {
            (current, false)
        } else {
            (with_missing(Seq::empty(), tags), true)
        },
    }
}

/// What is added stands behind what was there.
pub proof fn lemma_with_missing_prefix(current: Seq<Seq<char>>, more: Seq<Seq<char>>)
    ensures
        with_missing(current, more).len() >= current.len(),
        with_missing(current, more).take(current.len() as int) == current,
        forall|t: Seq<char>| #[trigger]
            with_missing(current, more).contains(t) <==> current.contains(t) || more.contains(t),
    decreases more.len(),
{
    let r = with_missing(current, more);
    if more.len() == 0 {
        assert(r.take(current.len() as int) =~= current);
    } else {
        let x = more.last();
        let rest = more.drop_last();
        let front = with_missing(current, rest);
        lemma_with_missing_prefix(current, rest);
        assert(r.take(current.len() as int) =~= front.take(current.len() as int));
        assert forall|t: Seq<char>| #[trigger] r.contains(t) <==> current.contains(t)
            || more.contains(t) by {
            assert(front.contains(t) <==> current.contains(t) || rest.contains(t));
            if rest.contains(t) {
                assert(more[rest.index_of(t)] == t);
            }
            if more.contains(t) && t != x {
                assert(rest[more.index_of(t)] == t);
            }
            assert(more[more.len() - 1] == x);
            if front.contains(t) {
                assert(r[front.index_of(t)] == t);
            }
            if !front.contains(x) {
                assert(r[r.len() - 1] == x);
                if r.contains(t) && t != x {
                    assert(front[r.index_of(t)] == t);
                }
            }
        }
    }
}

/// A list without repetitions gets none.
pub proof fn lemma_with_missing_no_duplicates(current: Seq<Seq<char>>, more: Seq<Seq<char>>)
    requires
        current.no_duplicates(),
    ensures
        with_missing(current, more).no_duplicates(),
    decreases more.len(),
{
    if more.len() > 0 {
        lemma_with_missing_no_duplicates(current, more.drop_last());
        let front = with_missing(current, more.drop_last());
        let x = more.last();
        if !front.contains(x) {
            let r = front.push(x);
            assert forall|i: int, j: int| 0 <= i < r.len() && 0 <= j < r.len() && i != j implies r[i]
                != r[j] by {
                if i == front.len() {
                    assert(front[j] != x);
                } else if j == front.len() {
                    assert(front[i] != x);
                }
            }
        }
    }
}

/// Appends the texts of another list that are missing.
fn add_missing(current: &[String], more: &[String]) -> (r: Vec<String>)
    ensures
        texts(r@) == with_missing(texts(current@), texts(more@)),
{
    let mut out = copy(current);
    let ghost all = texts(more@);
    let mut i: usize = 0;
    assert(all.take(0) =~= Seq::empty());
    while i < more.len()
        invariant
            i <= more.len(),
            all == texts(more@),
            texts(out@) == with_missing(texts(current@), all.take(i as int)),
        decreases more.len() - i,
    {
        let ghost earlier = texts(out@);
        proof {
            assert(all.take(i + 1).drop_last() =~= all.take(i as int));
            assert(all.take(i + 1).last() == more@[i as int]@);
        }
        if !has_text(out.as_slice(), more[i].as_str()) {
            out.push(more[i].clone());
            assert(texts(out@) =~= earlier.push(more@[i as int]@));
        }
        i += 1;
    }
    assert(all.take(all.len() as int) =~= all);
    out
}

/// Whether every string of `a` is among `b`.
fn all_among(a: &[String], b: &[String]) -> (r: bool)
    ensures
        r == (forall|t: Seq<char>| #[trigger] texts(a@).contains(t) ==> texts(b@).contains(t)),
{
    let mut i: usize = 0;
    while i < a.len()
        invariant
            i <= a.len(),
            forall|j: int| 0 <= j < i ==> texts(b@).contains(#[trigger] texts(a@)[j]),
        decreases a.len() - i,
    {
        if !has_text(b, a[i].as_str()) {
            assert(texts(a@)[i as int] == a@[i as int]@);
            assert(texts(a@).contains(a@[i as int]@));
            return false;
        }
        assert(texts(a@)[i as int] == a@[i as int]@);
        i += 1;
    }
    true
}

/// Selecting keeps a list as it is where everything is selected, and shortens it
/// where something is not.
proof fn lemma_filter_len<A>(s: Seq<A>, p: spec_fn(A) -> bool)
    ensures
        s.filter(p).len() <= s.len(),
        s.filter(p).len() == s.len() ==> s.filter(p) == s,
    decreases s.len(),
{
    reveal(Seq::filter);
    if s.len() > 0 {
        lemma_filter_len(s.drop_last(), p);
        assert(s.drop_last().push(s.last()) =~= s);
    } else {
        assert(s.filter(p) =~= s);
    }
}

/// The tags of an item after tags were added, taken away or replaced, and whether
/// anything changed.
pub fn apply_tags_op(current: &[String], tags: &[String], mode: SetTagsMode) -> (r: (
    Vec<String>,
    bool,
))
    ensures
        (texts(r.0@), r.1) == tags_op(texts(current@), texts(tags@), mode),
{
    match mode {
        SetTagsMode::Add => {
            let next = add_missing(current, tags);
            proof {
                lemma_with_missing_prefix(texts(current@), texts(tags@));
                assert(texts(next@).len() == next@.len());
                if next@.len() == current@.len() {
                    assert(texts(next@).take(current@.len() as int) =~= texts(next@));
                }
            }
            let changed = next.len() != current.len();
            (next, changed)
        },
        SetTagsMode::Remove => {
            let next = without(current, tags);
            proof {
                lemma_filter_len(texts(current@), |t: Seq<char>| !texts(tags@).contains(t));
                assert(texts(next@).len() == next@.len());
            }
            let changed = next.len() != current.len();
            (next, changed)
        },
        SetTagsMode::Replace => {
            if all_among(current, tags) && all_among(tags, current) {
                (copy(current), false)
            } else {
                let none: Vec<String> = Vec::new();
                assert(texts(none@) =~= Seq::empty());
                (add_missing(none.as_slice(), tags), true)
            }
        },
    }
}

/// After an item was put into a collection it is in it, after it was taken out it
/// is not, and its membership in every other collection is as before.
pub proof fn lemma_collection_op_membership(
    current: Seq<Seq<char>>,
    target: Seq<char>,
    op: CollectionOp,
)
    ensures
        collection_op(current, target, op).0.contains(target) <==> op == CollectionOp::Add,
        forall|c: Seq<char>|
            c != target ==> (#[trigger] collection_op(current, target, op).0.contains(c)
                <==> current.contains(c)),
{
    let r = collection_op(current, target, op).0;
    let p = other_than(target);
    if op == CollectionOp::Remove && current.contains(target) {
        lemma_filter_members(current, p);
        assert(r == current.filter(p));
        assert(!p(target));
        assert(!current.filter(p).contains(target));
        assert forall|c: Seq<char>| c != target implies (#[trigger] r.contains(c)
            <==> current.contains(c)) by {
            assert(p(c));
            assert(current.filter(p).contains(c) <==> current.contains(c) && p(c));
        }
    } else if op == CollectionOp::Add && !current.contains(target) {
        assert(r[r.len() - 1] == target);
        assert forall|c: Seq<char>| c != target implies (#[trigger] r.contains(c)
            <==> current.contains(c)) by {
            if current.contains(c) {
                assert(r[current.index_of(c)] == c);
            }
            if r.contains(c) {
                assert(current[r.index_of(c)] == c);
            }
        }
    }
}

/// A change that was made once changes nothing when it is made again.
pub proof fn lemma_collection_op_idempotent(
    current: Seq<Seq<char>>,
    target: Seq<char>,
    op: CollectionOp,
)
    ensures
        ({
            let next = collection_op(current, target, op).0;
            collection_op(next, target, op) == (next, false)
        }),
{
    lemma_collection_op_membership(current, target, op);
}

/// A change is reported exactly where the list of collections is another one.
pub proof fn lemma_collection_op_changed(
    current: Seq<Seq<char>>,
    target: Seq<char>,
    op: CollectionOp,
)
    ensures
        collection_op(current, target, op).1 <==> collection_op(current, target, op).0 != current,
{
    lemma_collection_op_membership(current, target, op);
}

/// Taking an item out of a collection undoes putting it into one where it was not.
pub proof fn lemma_remove_undoes_add(current: Seq<Seq<char>>, target: Seq<char>)
    requires
        !current.contains(target),
    ensures
        collection_op(
            collection_op(current, target, CollectionOp::Add).0,
            target,
            CollectionOp::Remove,
        ).0 == current,
{
    reveal(Seq::filter);
    let next = current.push(target);
    let p = other_than(target);
    assert(next[next.len() - 1] == target);
    assert(next.contains(target));
    assert(next.drop_last() =~= current);
    assert(next.filter(p) == current.filter(p));
    lemma_filter_all(current, p);
}

/// What is selected is there and meets the condition.
proof fn lemma_filter_members<A>(s: Seq<A>, p: spec_fn(A) -> bool)
    ensures
        forall|x: A| #[trigger] s.filter(p).contains(x) <==> s.contains(x) && p(x),
    decreases s.len(),
{
    reveal(Seq::filter);
    if s.len() > 0 {
        let front = s.drop_last();
        lemma_filter_members(front, p);
        assert forall|x: A| #[trigger] s.filter(p).contains(x) <==> s.contains(x) && p(x) by {
            assert(front.filter(p).contains(x) <==> front.contains(x) && p(x));
            if front.contains(x) {
                assert(s[front.index_of(x)] == x);
            }
            if s.contains(x) && x != s.last() {
                assert(front[s.index_of(x)] == x);
            }
            assert(s[s.len() - 1] == s.last());
            if p(s.last()) {
                let r = front.filter(p).push(s.last());
                assert(r[r.len() - 1] == s.last());
                if front.filter(p).contains(x) {
                    assert(r[front.filter(p).index_of(x)] == x);
                }
                if r.contains(x) && x != s.last() {
                    assert(front.filter(p)[r.index_of(x)] == x);
                }
            }
        }
    }
}

/// Selecting everything selects the list.
proof fn lemma_filter_all<A>(s: Seq<A>, p: spec_fn(A) -> bool)
    requires
        forall|x: A| #[trigger] s.contains(x) ==> p(x),
    ensures
        s.filter(p) == s,
    decreases s.len(),
{
    reveal(Seq::filter);
    if s.len() > 0 {
        let front = s.drop_last();
        assert forall|x: A| #[trigger] front.contains(x) implies p(x) by {
            assert(s[front.index_of(x)] == x);
            assert(s.contains(x));
        }
        lemma_filter_all(front, p);
        assert(s[s.len() - 1] == s.last());
        assert(s.contains(s.last()));
        assert(front.push(s.last()) =~= s);
    } else {
        assert(s.filter(p) =~= s);
    }
}

/// After a change of tags an item has: its old tags and the added ones; its old
/// tags but the removed ones; or exactly the given ones.
pub proof fn lemma_tags_op_members(
    current: Seq<Seq<char>>,
    tags: Seq<Seq<char>>,
    mode: SetTagsMode,
)
    ensures
        forall|t: Seq<char>| #[trigger]
            tags_op(current, tags, mode).0.contains(t) <==> (match mode {
                SetTagsMode::Add => current.contains(t) || tags.contains(t),
                SetTagsMode::Remove => current.contains(t) && !tags.contains(t),
                SetTagsMode::Replace => tags.contains(t),
            }),
{
    match mode {
        SetTagsMode::Add => lemma_with_missing_prefix(current, tags),
        SetTagsMode::Remove => lemma_filter_members(
            current,
            |t: Seq<char>| !tags.contains(t),
        ),
        SetTagsMode::Replace => lemma_with_missing_prefix(Seq::empty(), tags),
    }
}

/// A change of tags that was made once changes nothing when it is made again.
pub proof fn lemma_tags_op_idempotent(
    current: Seq<Seq<char>>,
    tags: Seq<Seq<char>>,
    mode: SetTagsMode,
)
    ensures
        ({
            let next = tags_op(current, tags, mode).0;
            tags_op(next, tags, mode) == (next, false)
        }),
{
    let next = tags_op(current, tags, mode).0;
    lemma_tags_op_members(current, tags, mode);
    match mode {
        SetTagsMode::Add => lemma_with_missing_none(next, tags),
        SetTagsMode::Remove => lemma_filter_all(next, |t: Seq<char>| !tags.contains(t)),
        SetTagsMode::Replace => {
            assert(same_members(next, tags));
        },
    }
}

/// A list that holds every text of another gets nothing from it.
proof fn lemma_with_missing_none(current: Seq<Seq<char>>, more: Seq<Seq<char>>)
    requires
        forall|t: Seq<char>| more.contains(t) ==> #[trigger] current.contains(t),
    ensures
        with_missing(current, more) == current,
    decreases more.len(),
{
    if more.len() > 0 {
        let rest = more.drop_last();
        assert forall|t: Seq<char>| rest.contains(t) implies #[trigger] current.contains(t) by {
            assert(more[rest.index_of(t)] == t);
            assert(more.contains(t));
        }
        lemma_with_missing_none(current, rest);
        assert(more[more.len() - 1] == more.last());
        assert(more.contains(more.last()));
        assert(current.contains(more.last()));
    }
}

/// The library of a call: the one that is asked for, else the configured one.
pub open spec fn picked(client: ClientView, library: Option<LibraryRef>) -> ClientView {
    match library {
        Some(l) => ClientView {
            user_id: Some(l.id),
            library_type: l.library_type@,
            ..client
        },
        None => client,
    }
}

/// The client for the library of a call.
pub fn pick_client(client: &ZoteroClient, library: Option<LibraryRef>) -> (r: ZoteroClient)
    ensures
        r@ == picked(client@, library),
{
    match library {
        Some(lib) => client.with_library(lib),
        None => client.clone(),
    }
}

/// Asks for the citations of one item or more.
pub fn export_citation(client: &ZoteroClient, args: ExportCitationArgs) -> (r: Result<
    Request,
    McpError,
>)
    ensures
        if args.keys@.len() == 0 {
            r matches Err(e) && e.says(ErrorKind::InvalidParams, "keys must not be empty"@)
        } else {
            r matches Ok(request) && request@ == picked(client@, args.library).reading(
                picked(client@, args.library).citation_url(texts(args.keys@), args.format.token()),
            )
        },
{
    if args.keys.len() == 0 {
        return Err(McpError::invalid_params("keys must not be empty".to_owned()));
    }
    let client = pick_client(client, args.library);
    Ok(client.export_citation(&args.keys, args.format.as_str()))
}

/// The error with which a tool answers where the API could not be reached or refused.
pub fn map_err(e: ClientError) -> (r: McpError)
    ensures
        r.says(ErrorKind::InternalError, e.text()),
{
    McpError::internal_error(e.message())
}

/// Whether the outcome is the text that was written, or the error that says why none was.
pub open spec fn is_serialized(
    written: Result<Seq<char>, Seq<char>>,
    r: Result<String, McpError>,
) -> bool {
    match written {
        Ok(text) => r matches Ok(t) && t@ == text,
        Err(why) => r matches Err(e) && e.says(ErrorKind::InternalError, "serialize: "@ + why),
    }
}

/// The text of an answer, from the outcome of its writing.
pub fn serialized(written: Result<String, String>) -> (r: Result<String, McpError>)
    ensures
        is_serialized(
            match written {
                Ok(text) => Ok(text@),
                Err(why) => Err(why@),
            },
            r,
        ),
{
    match written {
        Ok(text) => Ok(text),
        Err(why) => {
            let mut message = "serialize: ".to_owned();
            message.append(why.as_str());
            Err(McpError::internal_error(message))
        },
    }
}

/// The text with which a tool answers a value: the value in pretty JSON.
pub fn ok_json(v: &Json) -> (r: Result<String, McpError>)
    ensures
        is_serialized(pretty_text(v@), r),
{
    serialized(v.write_pretty())
}

/// A list of items as a tool returns it.
#[derive(Debug)]
pub enum ItemList {
    Compact { records: Vec<CompactItem> },
    Full { items: Vec<ZoteroItem> },
}

/// The list of items in the form that a call asks for, with abstracts cut to `cap`
/// characters in compact records.
pub fn shape_items(items: Vec<ZoteroItem>, compact: bool, cap: usize) -> (r: ItemList)
    ensures
        match r {
            ItemList::Compact { records } => compact && are_compact(
                records@,
                items@,
                cap as nat,
            ),
            ItemList::Full { items: full } => !compact && full == items,
        },
{
    if compact {
        ItemList::Compact { records: compact_items(&items, cap) }
    } else {
        ItemList::Full { items }
    }
}

/// An item as a tool returns it.
#[derive(Debug)]
pub enum ItemRecord {
    Compact { record: CompactItem },
    Full { item: ZoteroItem },
}

/// The item in the form that a call asks for.
pub fn shape_item(item: ZoteroItem, compact: bool, cap: usize) -> (r: ItemRecord)
    ensures
        match r {
            ItemRecord::Compact { record } => compact && record.is_of(item, cap as nat),
            ItemRecord::Full { item: full } => !compact && full == item,
        },
{
    if compact {
        ItemRecord::Compact { record: CompactItem::from_item_with_cap(&item, cap) }
    } else {
        ItemRecord::Full { item }
    }
}

/// The fields of the record of a collection.
pub open spec fn collection_pairs(c: ZoteroCollection) -> Entries {
    seq![("key"@, JsonView::Text(c.key@)), ("name"@, JsonView::Text(c.data.name@))]
}

/// The records of collections: their keys and names.
pub open spec fn collection_records(cols: Seq<ZoteroCollection>) -> Seq<JsonView> {
    cols.map_values(|c: ZoteroCollection| JsonView::Object(object(collection_pairs(c))))
}

/// Lists collections by their keys and names.
pub fn list_collections(cols: &[ZoteroCollection]) -> (r: Vec<Json>)
    ensures
        views(r@) == collection_records(cols@),
{
    let mut out: Vec<Json> = Vec::new();
    let mut i: usize = 0;
    while i < cols.len()
        invariant
            i <= cols.len(),
            out.len() == i,
            forall|j: int|
                0 <= j < i ==> (#[trigger] out@[j])@ == JsonView::Object(
                    object(collection_pairs(cols@[j])),
                ),
        decreases cols.len() - i,
    {
        let c = &cols[i];
        let ghost all = collection_pairs(*c);
        let mut o = JsonObject::new();
        assert(all.take(0) =~= Entries::empty());
        put_field(&mut o, Ghost(all), Ghost(0), "key", Json::text(c.key.as_str()));
        put_field(&mut o, Ghost(all), Ghost(1), "name", Json::text(c.data.name.as_str()));
        assert(all.take(2) =~= all);
        out.push(Json::Object(o));
        i += 1;
    }
    assert(views(out@) =~= collection_records(cols@));
    out
}

/// The change that gives an item these collections.
pub open spec fn collections_payload(collections: Seq<Seq<char>>) -> JsonView {
    JsonView::Object(object(seq![("collections"@, text_list(collections))]))
}

/// What a change of collections answers: the item and its collections.
pub open spec fn membership_pairs(key: Seq<char>, collections: Seq<Seq<char>>) -> Entries {
    seq![("key"@, JsonView::Text(key)), ("collections"@, text_list(collections))]
}

/// A change of the collections of an item.
#[derive(Debug)]
pub struct CollectionChange {
    /// The version that the item must still have and the fields to be written;
    /// nothing where nothing changes.
    pub patch: Option<(u64, Json)>,
    /// The item and its collections after the change.
    pub result: Json,
}

/// Plans the change of the collections of an item that was fetched under `key`.
pub fn mutate_collections(
    item: &ZoteroItem,
    key: &str,
    collection_id: &str,
    op: CollectionOp,
) -> (r: CollectionChange)
    ensures
        ({
            let (next, changed) = collection_op(
                texts(item.data.collections@),
                collection_id@,
                op,
            );
            &&& r.result@ == JsonView::Object(object(membership_pairs(key@, next)))
            &&& match r.patch {
                Some((version, data)) => changed && version == item.version && data@
                    == collections_payload(next),
                None => !changed,
            }
        }),
        r.patch is None <==> (texts(item.data.collections@).contains(collection_id@) <==> op
            == CollectionOp::Add),
{
    let (next, changed) = apply_collection_op(item.data.collections.as_slice(), collection_id, op);
    let patch = if changed {
        Some((item.version, Json::Object(single("collections", Json::text_array(&next)))))
    } else {
        None
    };
    let ghost all = membership_pairs(key@, texts(next@));
    let mut o = JsonObject::new();
    assert(all.take(0) =~= Entries::empty());
    put_field(&mut o, Ghost(all), Ghost(0), "key", Json::text(key));
    put_field(&mut o, Ghost(all), Ghost(1), "collections", Json::text_array(&next));
    assert(all.take(2) =~= all);
    CollectionChange { patch, result: Json::Object(o) }
}

} // verus!
