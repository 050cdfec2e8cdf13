//! Laws of the search for a full text.

use crate::children::{has_type, is_pdf_attachment};
use crate::client::ClientError;
use crate::error::{ErrorKind, McpError};
use crate::fulltext::{
    candidates, end_with, first, fulltext_answer, fulltext_candidates, fulltext_end,
    fulltext_start, fulltext_step, key_list, lemma_search_finds_first, FulltextAction,
    FulltextActionView, FulltextEvent, FulltextReplies, FulltextState,
};
use crate::json::{field, views, Json, JsonView};
use crate::laws::json::inner;
use crate::text::texts;
use crate::types::FullText;
use vstd::prelude::*;
use vstd::string::*;

verus! {

/// Whether the child at a position is the first whose item type is the text
/// `attachment`.
pub open spec fn first_attachment(children: Seq<JsonView>, i: int) -> bool {
    &&& 0 <= i < children.len()
    &&& inner(children[i], "itemType"@) == Some(JsonView::Text("attachment"@))
    &&& forall|j: int|
        0 <= j < i ==> inner(#[trigger] children[j], "itemType"@) != Some(
            JsonView::Text("attachment"@),
        )
}

/// Whether the child at a position is the first attachment whose content type is the text
/// `application/pdf`.
pub open spec fn first_pdf(children: Seq<JsonView>, i: int) -> bool {
    &&& 0 <= i < children.len()
    &&& inner(children[i], "itemType"@) == Some(JsonView::Text("attachment"@))
    &&& inner(children[i], "contentType"@) == Some(JsonView::Text("application/pdf"@))
    &&& forall|j: int|
        0 <= j < i ==> inner(#[trigger] children[j], "itemType"@) != Some(
            JsonView::Text("attachment"@),
        ) || inner(children[j], "contentType"@) != Some(JsonView::Text("application/pdf"@))
}

/// Whether a key is that of the first PDF among the children.
pub open spec fn key_of_first_pdf(children: Seq<JsonView>, k: Seq<char>) -> bool {
    exists|i: int| #[trigger]
        first_pdf(children, i) && field(children[i], "key"@) == Some(JsonView::Text(k))
}

/// Whether a key is that of the first attachment among the children.
pub open spec fn key_of_first_attachment(children: Seq<JsonView>, k: Seq<char>) -> bool {
    exists|i: int| #[trigger]
        first_attachment(children, i) && field(children[i], "key"@) == Some(JsonView::Text(k))
}

proof fn lemma_first(s: Seq<JsonView>, p: spec_fn(JsonView) -> bool, i: int)
    requires
        0 <= i <= s.len(),
        forall|j: int| 0 <= j < i ==> !p(#[trigger] s[j]),
        i < s.len() ==> p(s[i]),
    ensures
        first(s, p) == (if i < s.len() {
            Some(s[i])
        } else {
            None
        }),
    decreases s.len(),
{
    if i > 0 {
        let rest = s.skip(1);
        assert(!p(s[0]));
        assert forall|j: int| 0 <= j < i - 1 implies !p(#[trigger] rest[j]) by {
            assert(rest[j] == s[j + 1]);
        }
        lemma_first(rest, p, i - 1);
    }
}

proof fn lemma_some_first(s: Seq<JsonView>, p: spec_fn(JsonView) -> bool) -> (i: int)
    ensures
        0 <= i <= s.len(),
        forall|j: int| 0 <= j < i ==> !p(#[trigger] s[j]),
        i < s.len() ==> p(s[i]),
    decreases s.len(),
{
    if s.len() == 0 || p(s[0]) {
        0
    } else {
        let rest = s.skip(1);
        let i = lemma_some_first(rest, p);
        assert forall|j: int| 0 <= j < i + 1 implies !p(#[trigger] s[j]) by {
            if j > 0 {
                assert(s[j] == rest[j - 1]);
            }
        }
        i + 1
    }
}

proof fn lemma_pdf_keys(children: Seq<JsonView>)
    ensures
        ({
            let keys = key_list(first(children, |c: JsonView| is_pdf_attachment(c)));
            &&& keys.len() <= 1
            &&& forall|k: Seq<char>| #[trigger]
                key_of_first_pdf(children, k) ==> keys == seq![k]
            &&& keys.len() == 1 ==> key_of_first_pdf(children, keys[0])
        }),
{
    let p = |c: JsonView| is_pdf_attachment(c);
    let i = lemma_some_first(children, p);
    lemma_first(children, p, i);
    assert forall|c: JsonView| #[trigger] p(c) <==> inner(c, "itemType"@) == Some(
        JsonView::Text("attachment"@),
    ) && inner(c, "contentType"@) == Some(JsonView::Text("application/pdf"@)) by {}
    let keys = key_list(first(children, p));
    if i < children.len() {
        assert(p(children[i]));
        assert forall|j: int|
            0 <= j < i implies inner(#[trigger] children[j], "itemType"@) != Some(
            JsonView::Text("attachment"@),
        ) || inner(children[j], "contentType"@) != Some(JsonView::Text("application/pdf"@)) by {
            assert(!p(children[j]));
        }
        assert(first_pdf(children, i));
    }
    assert forall|k: Seq<char>| #[trigger] key_of_first_pdf(children, k) implies keys == seq![
        k,
    ] by {
        let j = choose|j: int| #[trigger]
            first_pdf(children, j) && field(children[j], "key"@) == Some(JsonView::Text(k));
        assert(p(children[j]));
        if i < j {
            assert(p(children[i]));
        } else if j < i {
            assert(!p(children[j]));
        }
        assert(i == j);
        assert(keys =~= seq![k]);
    }
    if keys.len() == 1 {
        assert(field(children[i], "key"@) == Some(JsonView::Text(keys[0])));
    }
}

proof fn lemma_attachment_keys(children: Seq<JsonView>)
    ensures
        ({
            let keys = key_list(first(children, |c: JsonView| has_type(c, "attachment"@)));
            &&& keys.len() <= 1
            &&& forall|k: Seq<char>| #[trigger]
                key_of_first_attachment(children, k) ==> keys == seq![k]
            &&& keys.len() == 1 ==> key_of_first_attachment(children, keys[0])
        }),
{
    let p = |c: JsonView| has_type(c, "attachment"@);
    let i = lemma_some_first(children, p);
    lemma_first(children, p, i);
    assert forall|c: JsonView| #[trigger] p(c) <==> inner(c, "itemType"@) == Some(
        JsonView::Text("attachment"@),
    ) by {}
    let keys = key_list(first(children, p));
    if i < children.len() {
        assert(p(children[i]));
        assert forall|j: int|
            0 <= j < i implies inner(#[trigger] children[j], "itemType"@) != Some(
            JsonView::Text("attachment"@),
        ) by {
            assert(!p(children[j]));
        }
        assert(first_attachment(children, i));
    }
    assert forall|k: Seq<char>| #[trigger] key_of_first_attachment(children, k) implies keys
        == seq![k] by {
        let j = choose|j: int| #[trigger]
            first_attachment(children, j) && field(children[j], "key"@) == Some(
                JsonView::Text(k),
            );
        assert(p(children[j]));
        if i < j {
            assert(p(children[i]));
        } else if j < i {
            assert(!p(children[j]));
        }
        assert(i == j);
        assert(keys =~= seq![k]);
    }
    if keys.len() == 1 {
        assert(field(children[i], "key"@) == Some(JsonView::Text(keys[0])));
    }
}

/// The keys that are tried are that of the first PDF and behind it that of the first
/// attachment, each where the child is there and its key is a text, and no others.
pub proof fn law_candidates(children: Seq<JsonView>)
    ensures
        candidates(children).len() <= 2,
        forall|k: Seq<char>| #[trigger]
            key_of_first_pdf(children, k) ==> candidates(children).len() > 0 && candidates(
                children,
            )[0] == k,
        forall|k: Seq<char>| #[trigger]
            key_of_first_attachment(children, k) ==> candidates(children).contains(k)
                && candidates(children).last() == k,
        forall|k: Seq<char>| #[trigger]
            candidates(children).contains(k) ==> key_of_first_pdf(children, k)
                || key_of_first_attachment(children, k),
{
    lemma_pdf_keys(children);
    lemma_attachment_keys(children);
    let a = key_list(first(children, |c: JsonView| is_pdf_attachment(c)));
    let b = key_list(first(children, |c: JsonView| has_type(c, "attachment"@)));
    assert(candidates(children) == a + b);
    assert forall|k: Seq<char>| #[trigger]
        key_of_first_attachment(children, k) implies candidates(children).contains(k)
        && candidates(children).last() == k by {
        assert((a + b)[a.len() as int] == k);
    }
    assert forall|k: Seq<char>| #[trigger] candidates(children).contains(k) implies
        key_of_first_pdf(children, k) || key_of_first_attachment(children, k) by {
        let i = (a + b).index_of(k);
        if i < a.len() {
            assert(a[0] == k);
        } else {
            assert(b[0] == k);
        }
    }
}

/// What [`fulltext_candidates`] lists: the key of the first PDF in front, that of the first
/// attachment at the end, whether or not a PDF is among the children, and nothing else.
pub proof fn law_candidates_listed(children: &[Json], r: Vec<String>)
    requires
        call_ensures(fulltext_candidates, (children,), r),
    ensures
        r@.len() <= 2,
        forall|k: Seq<char>| #[trigger]
            key_of_first_pdf(views(children@), k) ==> r@.len() > 0 && r@[0]@ == k,
        forall|k: Seq<char>| #[trigger]
            key_of_first_attachment(views(children@), k) ==> r@.len() > 0 && r@.last()@ == k,
        forall|i: int|
            0 <= i < r@.len() ==> key_of_first_pdf(views(children@), (#[trigger] r@[i])@)
                || key_of_first_attachment(views(children@), r@[i]@),
{
    let all = views(children@);
    law_candidates(all);
    assert(texts(r@) == candidates(all));
    assert(texts(r@).len() == r@.len());
    assert forall|i: int| 0 <= i < r@.len() implies key_of_first_pdf(all, (#[trigger] r@[i])@)
        || key_of_first_attachment(all, r@[i]@) by {
        assert(candidates(all)[i] == r@[i]@);
        assert(candidates(all).contains(r@[i]@));
    }
    assert forall|k: Seq<char>| #[trigger] key_of_first_attachment(all, k) implies r@.len() > 0
        && r@.last()@ == k by {
        assert(candidates(all)[r@.len() - 1] == r@[r@.len() - 1]@);
    }
    assert forall|k: Seq<char>| #[trigger] key_of_first_pdf(all, k) implies r@.len() > 0
        && r@[0]@ == k by {
        assert(candidates(all)[0] == r@[0]@);
    }
}

/// How a search ends that begins with [`fulltext_start`]: with the text of the item
/// itself where it has one; else with that of the first PDF among its children where it
/// has one; else with that of the first attachment. A request that fails ends it with an
/// error. Nothing is found exactly where all of these were answered and none had a text.
pub proof fn law_search(
    key: &str,
    start: (FulltextState, FulltextAction),
    replies: FulltextReplies,
    pdf: Seq<char>,
    any: Seq<char>,
)
    requires
        call_ensures(fulltext_start, (key,), start),
    ensures
        ({
            let end = fulltext_end((start.0@, start.1@), replies, 4);
            let none = Ok::<Option<FullText>, ClientError>(None);
            &&& (replies.text)(key@) matches Ok(Some(text)) ==> end == (
            FulltextActionView::Found { text })
            &&& (replies.text)(key@) matches Err(e) ==> end == (FulltextActionView::Fail {
                kind: ErrorKind::InternalError,
                message: e.text(),
            })
            &&& (replies.text)(key@) == none && replies.children is Err ==> end == (
            FulltextActionView::Fail {
                kind: ErrorKind::InternalError,
                message: replies.children->Err_0.text(),
            })
            &&& (replies.text)(key@) == none && replies.children is Ok ==> {
                let children = views(replies.children->Ok_0@);
                let no_pdf = forall|k: Seq<char>| !#[trigger] key_of_first_pdf(children, k);
                let no_attachment = forall|k: Seq<char>|
                    !#[trigger] key_of_first_attachment(children, k);
                &&& key_of_first_pdf(children, pdf) ==> {
                    &&& (replies.text)(pdf) matches Ok(Some(text)) ==> end == (
                    FulltextActionView::Found { text })
                    &&& (replies.text)(pdf) matches Err(e) ==> end == (FulltextActionView::Fail {
                        kind: ErrorKind::InternalError,
                        message: e.text(),
                    })
                }
                &&& key_of_first_attachment(children, any) && (no_pdf || key_of_first_pdf(
                    children,
                    pdf,
                ) && (replies.text)(pdf) == none) ==> {
                    &&& (replies.text)(any) matches Ok(Some(text)) ==> end == (
                    FulltextActionView::Found { text })
                    &&& (replies.text)(any) matches Err(e) ==> end == (FulltextActionView::Fail {
                        kind: ErrorKind::InternalError,
                        message: e.text(),
                    })
                }
                &&& end is NotFound <==> {
                    &&& forall|k: Seq<char>| #[trigger]
                        key_of_first_pdf(children, k) ==> (replies.text)(k) == none
                    &&& forall|k: Seq<char>| #[trigger]
                        key_of_first_attachment(children, k) ==> (replies.text)(k) == none
                }
            }
        }),
{
    lemma_search_finds_first(key@, replies);
    let end = fulltext_end((start.0@, start.1@), replies, 4);
    assert(end == end_with(replies.resolved(key@)));
    let none = Ok::<Option<FullText>, ClientError>(None);
    if (replies.text)(key@) == none && replies.children is Ok {
        let children = views(replies.children->Ok_0@);
        lemma_pdf_keys(children);
        lemma_attachment_keys(children);
        let a = key_list(first(children, |c: JsonView| is_pdf_attachment(c)));
        let b = key_list(first(children, |c: JsonView| has_type(c, "attachment"@)));
        let all = a + b;
        assert(candidates(children) == all);
        reveal_with_fuel(FulltextReplies::first_text, 3);
        assert(end == end_with(replies.first_text(all)));
        if a.len() == 1 && b.len() == 1 {
            assert(all =~= seq![a[0], b[0]]);
            assert(all.skip(1) =~= seq![b[0]]);
            assert(all.skip(1).skip(1) =~= Seq::empty());
        } else if a.len() == 1 {
            assert(all =~= seq![a[0]]);
            assert(all.skip(1) =~= Seq::empty());
        } else if b.len() == 1 {
            assert(all =~= seq![b[0]]);
            assert(all.skip(1) =~= Seq::empty());
        } else {
            assert(all =~= Seq::empty());
        }
    }
}

/// What a request for a full text is answered: the text that was found; where the search
/// failed, the error with which it failed; else an error in the request that names the
/// item.
pub proof fn law_fulltext_answer(
    key: &str,
    end: FulltextAction,
    r: Result<FullText, McpError>,
)
    requires
        call_ensures(fulltext_answer, (key, end), r),
    ensures
        end matches FulltextAction::Found { text } ==> r == Ok::<FullText, McpError>(text),
        end matches FulltextAction::Fail { error } ==> r is Err && r->Err_0.kind == error.kind
            && r->Err_0.message@ == error.message@,
        end is NotFound ==> r is Err && r->Err_0.kind == ErrorKind::InvalidParams
            && r->Err_0.message@ == "item "@ + key@
            + " has no indexed attachment fulltext (Zotero may need to (re)index it)"@,
{
}

/// A search takes every answer to what it asks for: a text, the lack of one or a failure
/// where it asked for a text, and children or a failure where it asked for children.
pub proof fn law_search_goes_on(
    key: &str,
    start: (FulltextState, FulltextAction),
    state: FulltextState,
    event: FulltextEvent,
    r: (FulltextState, FulltextAction),
    next: FulltextEvent,
)
    requires
        call_ensures(fulltext_start, (key,), start),
        call_ensures(fulltext_step, (state, event), r),
    ensures
        start.1@ == (FulltextActionView::GetFulltext { key: key@ }),
        next is Text || next is Refused ==> call_requires(fulltext_step, (start.0, next)),
        r.1 is GetFulltext && (next is Text || next is Refused) ==> call_requires(
            fulltext_step,
            (r.0, next),
        ),
        r.1 is GetChildren && (next is Children || next is Refused) ==> call_requires(
            fulltext_step,
            (r.0, next),
        ),
{
    if next is Text || next is Refused {
        assert(start.1.answered_by(next));
        if r.1 is GetFulltext {
            assert(r.1.answered_by(next));
        }
    }
    if r.1 is GetChildren && (next is Children || next is Refused) {
        assert(r.1.answered_by(next));
    }
}

} // verus!
