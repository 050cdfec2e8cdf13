//! Finding the full text of an item: of the item itself where it is an attachment,
//! else of its first PDF, else of its first attachment.

use crate::children::{
    child_key, has_type, is_pdf, is_pdf_attachment, is_type, key_of,
};
use crate::client::ClientError;
use crate::error::{ErrorKind, McpError};
use crate::json::{views, Json, JsonView};
use crate::text::texts;
use crate::tools::map_err;
use crate::types::FullText;
use vstd::prelude::*;
use vstd::string::*;

verus! {

/// The first child of which `p` holds.
pub open spec fn first(children: Seq<JsonView>, p: spec_fn(JsonView) -> bool) -> Option<JsonView>
    decreases children.len(),
{
    if children.len() == 0 {
        None
    } else if p(children[0]) {
        Some(children[0])
    } else {
        first(children.skip(1), p)
    }
}

/// The key of a child, where there is a child and its key is a text.
pub open spec fn key_list(child: Option<JsonView>) -> Seq<Seq<char>> {
    match child {
        Some(c) => match child_key(c) {
            Some(k) => seq![k],
            None => Seq::empty(),
        },
        None => Seq::empty(),
    }
}

/// The keys that may have a full text, in the order in which they are tried.
pub open spec fn candidates(children: Seq<JsonView>) -> Seq<Seq<char>> {
    key_list(first(children, |c: JsonView| is_pdf_attachment(c))) + key_list(
        first(children, |c: JsonView| has_type(c, "attachment"@)),
    )
}

fn push_key(out: &mut Vec<String>, child: Option<&Json>)
    ensures
        texts(final(out)@) == texts(old(out)@) + key_list(
            match child {
                Some(c) => Some(c@),
                None => None,
            },
        ),
{
    let ghost earlier = texts(out@);
    if let Some(c) = child {
        if let Some(k) = key_of(c) {
            out.push(k.to_owned());
            assert(texts(out@) =~= earlier.push(k@));
            assert(earlier.push(k@) =~= earlier + seq![k@]);
            return;
        }
    }
    assert(texts(out@) =~= earlier + Seq::<Seq<char>>::empty());
}

/// The keys that may have a full text.
pub fn fulltext_candidates(children: &[Json]) -> (r: Vec<String>)
    ensures
        texts(r@) == candidates(views(children@)),
{
    let ghost all = views(children@);
    let ghost p = |c: JsonView| is_pdf_attachment(c);
    let ghost q = |c: JsonView| has_type(c, "attachment"@);
    let mut pdf: Option<&Json> = None;
    let mut any: Option<&Json> = None;
    let mut i: usize = 0;
    assert(all.skip(0) =~= all);
    while i < children.len()
        invariant
            i <= children.len(),
            all == views(children@),
            p == (|c: JsonView| is_pdf_attachment(c)),
            q == (|c: JsonView| has_type(c, "attachment"@)),
            match pdf {
                Some(c) => first(all, p) == Some(c@),
                None => first(all, p) == first(all.skip(i as int), p),
            },
            match any {
                Some(c) => first(all, q) == Some(c@),
                None => first(all, q) == first(all.skip(i as int), q),
            },
        decreases children.len() - i,
    {
        let c = &children[i];
        assert(all.skip(i as int)[0] == c@);
        assert(all.skip(i as int).skip(1) =~= all.skip(i + 1));
        if pdf.is_none() && is_pdf(c) {
            pdf = Some(c);
        }
        if any.is_none() && is_type(c, "attachment") {
            any = Some(c);
        }
        i += 1;
    }
    let mut out: Vec<String> = Vec::new();
    assert(texts(out@) =~= Seq::empty());
    push_key(&mut out, pdf);
    push_key(&mut out, any);
    assert(texts(out@) =~= candidates(all));
    out
}

/// How far the search for a full text has come.
#[derive(Debug)]
pub enum FulltextState {
    /// The text of the item itself was asked for.
    AskedItem { key: String },
    /// The children of the item were asked for.
    AskedChildren,
    /// The text of a candidate was asked for; those from `next` on are left.
    AskedCandidate { keys: Vec<String>, next: usize },
    /// The search is over.
    Over,
}

/// The mathematical value of a [`FulltextState`].
pub enum FulltextStateView {
    AskedItem { key: Seq<char> },
    AskedChildren,
    AskedCandidate { left: Seq<Seq<char>> },
    Over,
}

impl View for FulltextState {
    type V = FulltextStateView;

    open spec fn view(&self) -> FulltextStateView {
        match *self {
            FulltextState::AskedItem { key } => FulltextStateView::AskedItem { key: key@ },
            FulltextState::AskedChildren => FulltextStateView::AskedChildren,
            FulltextState::AskedCandidate { keys, next } => FulltextStateView::AskedCandidate {
                left: texts(keys@).skip(next as int),
            },
            FulltextState::Over => FulltextStateView::Over,
        }
    }
}

/// What is to be done next.
#[derive(Debug)]
pub enum FulltextAction {
    GetFulltext { key: String },
    GetChildren { key: String },
    Found { text: FullText },
    NotFound,
    /// The search cannot go on.
    Fail { error: McpError },
}

/// The mathematical value of a [`FulltextAction`].
pub enum FulltextActionView {
    GetFulltext { key: Seq<char> },
    GetChildren { key: Seq<char> },
    Found { text: FullText },
    NotFound,
    Fail { kind: ErrorKind, message: Seq<char> },
}

impl View for FulltextAction {
    type V = FulltextActionView;

    open spec fn view(&self) -> FulltextActionView {
        match *self {
            FulltextAction::GetFulltext { key } => FulltextActionView::GetFulltext { key: key@ },
            FulltextAction::GetChildren { key } => FulltextActionView::GetChildren { key: key@ },
            FulltextAction::Found { text } => FulltextActionView::Found { text },
            FulltextAction::NotFound => FulltextActionView::NotFound,
            FulltextAction::Fail { error } => FulltextActionView::Fail {
                kind: error.kind,
                message: error.message@,
            },
        }
    }
}

/// What an action brought.
#[derive(Debug)]
pub enum FulltextEvent {
    /// The full text of a key, if it has one.
    Text { text: Option<FullText> },
    Children { children: Vec<Json> },
    /// The request failed.
    Refused { error: ClientError },
}

impl FulltextState {
    /// Whether the event answers the action that the state waits for. A request can
    /// fail in any state.
    pub open spec fn awaits(self, event: FulltextEvent) -> bool {
        match self {
            FulltextState::AskedItem { .. } => event is Text || event is Refused,
            FulltextState::AskedChildren => event is Children || event is Refused,
            FulltextState::AskedCandidate { keys, next } => event is Refused || event is Text
                && next <= keys@.len(),
            FulltextState::Over => false,
        }
    }
}

impl FulltextAction {
    /// Whether the event is an answer to the action.
    pub open spec fn answered_by(self, event: FulltextEvent) -> bool {
        match self {
            FulltextAction::GetFulltext { .. } => event is Text || event is Refused,
            FulltextAction::GetChildren { .. } => event is Children || event is Refused,
            _ => false,
        }
    }
}

/// The step that tries the first of the keys that are left.
pub open spec fn try_next(left: Seq<Seq<char>>) -> (FulltextStateView, FulltextActionView) {
    if left.len() == 0 {
        (FulltextStateView::Over, FulltextActionView::NotFound)
    } else {
        (
            FulltextStateView::AskedCandidate { left: left.skip(1) },
            FulltextActionView::GetFulltext { key: left[0] },
        )
    }
}

/// The step that follows an event: a text or a failed request ends the search; an item
/// without a text is asked for its children, and their candidates are tried in turn.
pub open spec fn fulltext_next(state: FulltextStateView, event: FulltextEvent) -> (
    FulltextStateView,
    FulltextActionView,
) {
    match (state, event) {
        (_, FulltextEvent::Refused { error }) => (
            FulltextStateView::Over,
            FulltextActionView::Fail { kind: ErrorKind::InternalError, message: error.text() },
        ),
        (_, FulltextEvent::Text { text: Some(text) }) => (
            FulltextStateView::Over,
            FulltextActionView::Found { text },
        ),
        (FulltextStateView::AskedItem { key }, FulltextEvent::Text { text: None }) => (
            FulltextStateView::AskedChildren,
            FulltextActionView::GetChildren { key },
        ),
        (FulltextStateView::AskedCandidate { left }, FulltextEvent::Text { text: None }) =>
            try_next(left),
        (_, FulltextEvent::Children { children }) => try_next(candidates(views(children@))),
        _ => (FulltextStateView::Over, FulltextActionView::NotFound),
    }
}

fn try_candidate(keys: Vec<String>, next: usize) -> (r: (FulltextState, FulltextAction))
    requires
        next <= keys@.len(),
    ensures
        (r.0@, r.1@) == try_next(texts(keys@).skip(next as int)),
        forall|event: FulltextEvent| #[trigger] r.1.answered_by(event) ==> r.0.awaits(event),
{
    if next < keys.len() {
        let key = keys[next].clone();
        assert(texts(keys@).skip(next as int)[0] == key@);
        assert(texts(keys@).skip(next as int).skip(1) =~= texts(keys@).skip(next + 1));
        (
            FulltextState::AskedCandidate { keys, next: next + 1 },
            FulltextAction::GetFulltext { key },
        )
    } else {
        (FulltextState::Over, FulltextAction::NotFound)
    }
}

/// Begins the search for the full text of an item, with the item itself.
pub fn fulltext_start(key: &str) -> (r: (FulltextState, FulltextAction))
    ensures
        r.0@ == (FulltextStateView::AskedItem { key: key@ }),
        r.1@ == (FulltextActionView::GetFulltext { key: key@ }),
        forall|event: FulltextEvent| #[trigger] r.1.answered_by(event) ==> r.0.awaits(event),
{
    (
        FulltextState::AskedItem { key: key.to_owned() },
        FulltextAction::GetFulltext { key: key.to_owned() },
    )
}

/// Goes on with the search after an event.
pub fn fulltext_step(state: FulltextState, event: FulltextEvent) -> (r: (
    FulltextState,
    FulltextAction,
))
    requires
        state.awaits(event),
    ensures
        (r.0@, r.1@) == fulltext_next(state@, event),
        forall|event: FulltextEvent| #[trigger] r.1.answered_by(event) ==> r.0.awaits(event),
{
    match event {
        FulltextEvent::Refused { error } => (
            FulltextState::Over,
            FulltextAction::Fail { error: map_err(error) },
        ),
        FulltextEvent::Text { text: Some(text) } => (
            FulltextState::Over,
            FulltextAction::Found { text },
        ),
        FulltextEvent::Text { text: None } => match state {
            FulltextState::AskedItem { key } => (
                FulltextState::AskedChildren,
                FulltextAction::GetChildren { key },
            ),
            FulltextState::AskedCandidate { keys, next } => try_candidate(keys, next),
            _ => (FulltextState::Over, FulltextAction::NotFound),
        },
        FulltextEvent::Children { children } => {
            let keys = fulltext_candidates(children.as_slice());
            assert(texts(keys@).skip(0) =~= texts(keys@));
            try_candidate(keys, 0)
        },
    }
}

/// How the API answers in the course of a search: the text of a key, if it has one, and
/// the children of the item, or the error of the request.
pub struct FulltextReplies {
    pub text: spec_fn(Seq<char>) -> Result<Option<FullText>, ClientError>,
    pub children: Result<Vec<Json>, ClientError>,
}

impl FulltextReplies {
    /// The event that a question for a text brings.
    pub open spec fn text_event(self, key: Seq<char>) -> FulltextEvent {
        match (self.text)(key) {
            Ok(text) => FulltextEvent::Text { text },
            Err(error) => FulltextEvent::Refused { error },
        }
    }

    /// The event that the question for the children brings.
    pub open spec fn children_event(self) -> FulltextEvent {
        match self.children {
            Ok(children) => FulltextEvent::Children { children },
            Err(error) => FulltextEvent::Refused { error },
        }
    }

    /// The first text that one of the keys has, or what is said of the first request
    /// that failed in front of it.
    pub open spec fn first_text(self, keys: Seq<Seq<char>>) -> Result<Option<FullText>, Seq<char>>
        decreases keys.len(),
    {
        if keys.len() == 0 {
            Ok(None)
        } else {
            match (self.text)(keys[0]) {
                Err(error) => Err(error.text()),
                Ok(Some(text)) => Ok(Some(text)),
                Ok(None) => self.first_text(keys.skip(1)),
            }
        }
    }

    /// The full text of an item: its own, else the first of the candidates among its
    /// children.
    pub open spec fn resolved(self, key: Seq<char>) -> Result<Option<FullText>, Seq<char>> {
        match (self.text)(key) {
            Err(error) => Err(error.text()),
            Ok(Some(text)) => Ok(Some(text)),
            Ok(None) => match self.children {
                Err(error) => Err(error.text()),
                Ok(children) => self.first_text(candidates(views(children@))),
            },
        }
    }
}

/// The last action of a search from a step on, with at most `fuel` answers.
pub open spec fn fulltext_end(
    step: (FulltextStateView, FulltextActionView),
    replies: FulltextReplies,
    fuel: nat,
) -> FulltextActionView
    decreases fuel,
{
    if fuel == 0 {
        step.1
    } else {
        match step.1 {
            FulltextActionView::GetFulltext { key } => fulltext_end(
                fulltext_next(step.0, replies.text_event(key)),
                replies,
                (fuel - 1) as nat,
            ),
            FulltextActionView::GetChildren { .. } => fulltext_end(
                fulltext_next(step.0, replies.children_event()),
                replies,
                (fuel - 1) as nat,
            ),
            end => end,
        }
    }
}

/// The last action of a search with an outcome.
pub open spec fn end_with(outcome: Result<Option<FullText>, Seq<char>>) -> FulltextActionView {
    match outcome {
        Ok(Some(text)) => FulltextActionView::Found { text },
        Ok(None) => FulltextActionView::NotFound,
        Err(message) => FulltextActionView::Fail { kind: ErrorKind::InternalError, message },
    }
}

proof fn lemma_candidates_end(left: Seq<Seq<char>>, replies: FulltextReplies, fuel: nat)
    requires
        fuel >= left.len(),
    ensures
        fulltext_end(try_next(left), replies, fuel) == end_with(replies.first_text(left)),
    decreases left.len(),
{
    if left.len() > 0 {
        reveal_with_fuel(fulltext_end, 2);
        if (replies.text)(left[0]) == Ok::<Option<FullText>, ClientError>(None) {
            lemma_candidates_end(left.skip(1), replies, (fuel - 1) as nat);
        }
    }
}

/// The search finds the text of the item itself where it has one, else the first
/// text that one of the candidates among its children has. It finds nothing only where
/// none of them has one, and it ends with an error where a request failed. It is over
/// after at most four answers.
pub proof fn lemma_search_finds_first(key: Seq<char>, replies: FulltextReplies)
    ensures
        fulltext_end(
            (FulltextStateView::AskedItem { key }, FulltextActionView::GetFulltext { key }),
            replies,
            4,
        ) == end_with(replies.resolved(key)),
{
    reveal_with_fuel(fulltext_end, 3);
    if let Ok(children) = replies.children {
        let c = candidates(views(children@));
        assert(c.len() <= 2);
        lemma_candidates_end(c, replies, 2);
    }
}

/// A request for a full text is answered with the text that is found; else with an
/// error in the request that names the item; and where a request to the API failed, with
/// what is said of that failure.
pub proof fn lemma_fulltext_answer(key: Seq<char>, replies: FulltextReplies)
    ensures
        answer_to(
            key,
            fulltext_end(
                (FulltextStateView::AskedItem { key }, FulltextActionView::GetFulltext { key }),
                replies,
                4,
            ),
        ) == (match replies.resolved(key) {
            Ok(Some(text)) => Ok::<FullText, (ErrorKind, Seq<char>)>(text),
            Ok(None) => Err((ErrorKind::InvalidParams, no_fulltext_text(key))),
            Err(message) => Err((ErrorKind::InternalError, message)),
        }),
{
    lemma_search_finds_first(key, replies);
}

/// What the server says of an item without a full text.
pub open spec fn no_fulltext_text(key: Seq<char>) -> Seq<char> {
    "item "@ + key
        + " has no indexed attachment fulltext (Zotero may need to (re)index it)"@
}

/// The error for an item without a full text.
pub fn no_fulltext_error(key: &str) -> (r: McpError)
    ensures
        r.says(ErrorKind::InvalidParams, no_fulltext_text(key@)),
{
    let mut out = "item ".to_owned();
    out.append(key);
    out.append(" has no indexed attachment fulltext (Zotero may need to (re)index it)");
    McpError::invalid_params(out)
}

/// The answer with which a search ends: the text, or the kind and the message of the
/// error.
pub open spec fn answer_to(key: Seq<char>, end: FulltextActionView) -> Result<
    FullText,
    (ErrorKind, Seq<char>),
> {
    match end {
        FulltextActionView::Found { text } => Ok(text),
        FulltextActionView::Fail { kind, message } => Err((kind, message)),
        _ => Err((ErrorKind::InvalidParams, no_fulltext_text(key))),
    }
}

/// The answer to a request for the full text of an item, when the search is over.
pub fn fulltext_answer(key: &str, end: FulltextAction) -> (r: Result<FullText, McpError>)
    requires
        end is Found || end is NotFound || end is Fail,
    ensures
        answer_to(key@, end@) == (match r {
            Ok(text) => Ok(text),
            Err(e) => Err((e.kind, e.message@)),
        }),
{
    match end {
        FulltextAction::Found { text } => Ok(text),
        FulltextAction::Fail { error } => Err(error),
        _ => Err(no_fulltext_error(key)),
    }
}

} // verus!
