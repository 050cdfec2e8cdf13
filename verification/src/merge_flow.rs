//! The course of a merge: what is fetched, what is written and in which order, as
//! steps from one answer of the API to the next action.

use crate::children::{child_key, key_of};
use crate::client::ClientError;
use crate::error::{ErrorKind, McpError};
use crate::json::{field, object, single, unsigned_of, views, Json, JsonView};
use crate::merge::{
    changes_showable, reconcile_items, reconciled, report, try_dry_run_report,
};
use crate::text::{decimal, decimal_text, same_text};
use crate::tools::MergeArgs;
use crate::types::{item_fields, ZoteroItem};
use vstd::prelude::*;
use vstd::string::*;

verus! {

/// Which item survives, which one goes, and whether to write at all.
#[derive(Debug)]
pub struct MergePlan {
    pub target_key: String,
    pub source_key: String,
    pub dry_run: bool,
}

/// The mathematical value of a [`MergePlan`].
pub struct MergePlanView {
    pub target_key: Seq<char>,
    pub source_key: Seq<char>,
    pub dry_run: bool,
}

impl View for MergePlan {
    type V = MergePlanView;

    open spec fn view(&self) -> MergePlanView {
        MergePlanView {
            target_key: self.target_key@,
            source_key: self.source_key@,
            dry_run: self.dry_run,
        }
    }
}

/// How far a merge has come.
#[derive(Debug)]
pub enum MergeState {
    /// The target was asked for.
    AskedTarget { plan: MergePlan },
    /// The source was asked for.
    AskedSource { plan: MergePlan, target: ZoteroItem },
    /// The children of the source were asked for.
    AskedChildren { plan: MergePlan, target: ZoteroItem, source: ZoteroItem, merged: Json },
    /// The target or a child is being written; the children from `next` on are left.
    Writing { plan: MergePlan, children: Vec<Json>, next: usize },
    /// The source was asked for once more, for its version.
    AskedFresh { plan: MergePlan, count: usize },
    /// The source is being moved to the trash.
    Trashing { plan: MergePlan, count: usize },
    /// The merge is over.
    Over,
}

/// The mathematical value of a [`MergeState`].
pub enum MergeStateView {
    AskedTarget { plan: MergePlanView },
    AskedSource { plan: MergePlanView, target: ZoteroItem },
    AskedChildren {
        plan: MergePlanView,
        target: ZoteroItem,
        source: ZoteroItem,
        merged: JsonView,
    },
    Writing { plan: MergePlanView, left: Seq<JsonView>, count: nat },
    AskedFresh { plan: MergePlanView, count: nat },
    Trashing { plan: MergePlanView, count: nat },
    Over,
}

impl View for MergeState {
    type V = MergeStateView;

    open spec fn view(&self) -> MergeStateView {
        match *self {
            MergeState::AskedTarget { plan } => MergeStateView::AskedTarget { plan: plan@ },
            MergeState::AskedSource { plan, target } => MergeStateView::AskedSource {
                plan: plan@,
                target,
            },
            MergeState::AskedChildren { plan, target, source, merged } =>
                MergeStateView::AskedChildren { plan: plan@, target, source, merged: merged@ },
            MergeState::Writing { plan, children, next } => MergeStateView::Writing {
                plan: plan@,
                left: views(children@).skip(next as int),
                count: children@.len(),
            },
            MergeState::AskedFresh { plan, count } => MergeStateView::AskedFresh {
                plan: plan@,
                count: count as nat,
            },
            MergeState::Trashing { plan, count } => MergeStateView::Trashing {
                plan: plan@,
                count: count as nat,
            },
            MergeState::Over => MergeStateView::Over,
        }
    }
}

/// What is to be done next.
#[derive(Debug)]
pub enum MergeAction {
    GetItem { key: String },
    GetChildren { key: String },
    PatchItem { key: String, version: u64, data: Json },
    TrashItem { key: String, version: u64 },
    /// The merge is done; the text says what was done or would be done.
    Done { text: String },
    /// The merge cannot go on.
    Fail { error: McpError },
    /// The preview cannot be written: a value in it would be cut within a character.
    Unprintable,
}

/// The mathematical value of a [`MergeAction`].
pub enum MergeActionView {
    GetItem { key: Seq<char> },
    GetChildren { key: Seq<char> },
    PatchItem { key: Seq<char>, version: u64, data: JsonView },
    TrashItem { key: Seq<char>, version: u64 },
    Done { text: Seq<char> },
    Fail { kind: ErrorKind, message: Seq<char> },
    Unprintable,
}

impl View for MergeAction {
    type V = MergeActionView;

    open spec fn view(&self) -> MergeActionView {
        match *self {
            MergeAction::GetItem { key } => MergeActionView::GetItem { key: key@ },
            MergeAction::GetChildren { key } => MergeActionView::GetChildren { key: key@ },
            MergeAction::PatchItem { key, version, data } => MergeActionView::PatchItem {
                key: key@,
                version,
                data: data@,
            },
            MergeAction::TrashItem { key, version } => MergeActionView::TrashItem {
                key: key@,
                version,
            },
            MergeAction::Done { text } => MergeActionView::Done { text: text@ },
            MergeAction::Fail { error } => MergeActionView::Fail {
                kind: error.kind,
                message: error.message@,
            },
            MergeAction::Unprintable => MergeActionView::Unprintable,
        }
    }
}

impl MergeActionView {
    /// Whether the action changes the library.
    pub open spec fn writes(self) -> bool {
        self is PatchItem || self is TrashItem
    }
}

/// What an action brought.
#[derive(Debug)]
pub enum MergeEvent {
    Item { item: ZoteroItem },
    Children { children: Vec<Json> },
    Written,
    /// The request failed.
    Refused { error: ClientError },
}

impl MergeState {
    /// Whether the event answers the action that the state waits for. A request can
    /// fail in any state.
    pub open spec fn awaits(self, event: MergeEvent) -> bool {
        match self {
            MergeState::AskedTarget { .. } => event is Item || event is Refused,
            MergeState::AskedSource { .. } => event is Item || event is Refused,
            MergeState::AskedChildren { merged, .. } => event is Refused || event is Children
                && merged@ is Object,
            MergeState::Writing { children, next, .. } => event is Refused || event is Written
                && next <= children@.len(),
            MergeState::AskedFresh { .. } => event is Item || event is Refused,
            MergeState::Trashing { .. } => event is Written || event is Refused,
            MergeState::Over => false,
        }
    }
}

impl MergeAction {
    /// Whether the event is an answer to the action.
    pub open spec fn answered_by(self, event: MergeEvent) -> bool {
        match self {
            MergeAction::GetItem { .. } => event is Item || event is Refused,
            MergeAction::GetChildren { .. } => event is Children || event is Refused,
            MergeAction::PatchItem { .. } => event is Written || event is Refused,
            MergeAction::TrashItem { .. } => event is Written || event is Refused,
            _ => false,
        }
    }
}

/// The type of an item, where it is one of those that have a parent.
pub open spec fn child_type(item: ZoteroItem) -> Option<Seq<char>> {
    match item.data.item_type {
        Some(t) => if t@ == "attachment"@ || t@ == "note"@ || t@ == "annotation"@ {
            Some(t@)
        } else {
            None
        },
        None => None,
    }
}

/// What is said of an item that cannot be merged.
pub open spec fn refusal(label: Seq<char>, item: ZoteroItem, t: Seq<char>) -> Seq<char> {
    label + " ("@ + item.key@ + ") is a "@ + t
        + " -- only top-level items can be merged"@
}

/// A failure of the merge.
pub open spec fn failed(message: Seq<char>) -> (MergeStateView, MergeActionView) {
    (
        MergeStateView::Over,
        MergeActionView::Fail { kind: ErrorKind::InternalError, message },
    )
}

/// The change that gives an item a new parent.
pub open spec fn reparent_payload(parent: Seq<char>) -> JsonView {
    JsonView::Object(object(seq![("parentItem"@, JsonView::Text(parent))]))
}

/// The version of a child.
pub open spec fn child_version(child: JsonView) -> Option<u64> {
    match field(child, "version"@) {
        Some(v) => unsigned_of(v),
        None => None,
    }
}

/// The step that gives the next child its new parent, or asks for the version of
/// the source where no child is left.
pub open spec fn write_next(plan: MergePlanView, left: Seq<JsonView>, count: nat) -> (
    MergeStateView,
    MergeActionView,
) {
    if left.len() == 0 {
        (
            MergeStateView::AskedFresh { plan, count },
            MergeActionView::GetItem { key: plan.source_key },
        )
    } else {
        match (child_key(left[0]), child_version(left[0])) {
            (None, _) => failed("child missing key"@),
            (Some(_), None) => failed("child missing version"@),
            (Some(key), Some(version)) => (
                MergeStateView::Writing { plan, left: left.skip(1), count },
                MergeActionView::PatchItem {
                    key,
                    version,
                    data: reparent_payload(plan.target_key),
                },
            ),
        }
    }
}

/// What a merge says at its end.
pub open spec fn merged_text(plan: MergePlanView, count: nat) -> Seq<char> {
    "merged "@ + plan.source_key + " into "@ + plan.target_key + " ("@ + decimal(count)
        + " child item(s) re-parented; source moved to trash)"@
}

/// The step that follows the answer with the source.
pub open spec fn after_source(plan: MergePlanView, target: ZoteroItem, source: ZoteroItem) -> (
    MergeStateView,
    MergeActionView,
) {
    match (child_type(target), child_type(source)) {
        (Some(t), _) => failed(refusal("target"@, target, t)),
        (None, Some(t)) => failed(refusal("source"@, source, t)),
        (None, None) => (
            MergeStateView::AskedChildren {
                plan,
                target,
                source,
                merged: reconciled(target, source),
            },
            MergeActionView::GetChildren { key: plan.source_key },
        ),
    }
}

/// The step that follows the answer with the children of the source: the preview
/// and nothing more in a dry run, else the first write.
pub open spec fn after_children(
    plan: MergePlanView,
    target: ZoteroItem,
    source: ZoteroItem,
    merged: JsonView,
    children: Seq<JsonView>,
) -> (MergeStateView, MergeActionView) {
    if plan.dry_run {
        if changes_showable(item_fields(target.data), merged->Object_0) {
            (
                MergeStateView::Over,
                MergeActionView::Done {
                    text: report(target, source, merged->Object_0, children.len()),
                },
            )
        } else {
            (MergeStateView::Over, MergeActionView::Unprintable)
        }
    } else {
        (
            MergeStateView::Writing { plan, left: children, count: children.len() },
            MergeActionView::PatchItem {
                key: plan.target_key,
                version: target.version,
                data: merged,
            },
        )
    }
}

/// The step that follows an event. A failed request ends the merge with its error.
pub open spec fn merge_next(state: MergeStateView, event: MergeEvent) -> (
    MergeStateView,
    MergeActionView,
) {
    match (state, event) {
        (_, MergeEvent::Refused { error }) => failed(error.text()),
        (MergeStateView::AskedTarget { plan }, MergeEvent::Item { item }) => (
            MergeStateView::AskedSource { plan, target: item },
            MergeActionView::GetItem { key: plan.source_key },
        ),
        (MergeStateView::AskedSource { plan, target }, MergeEvent::Item { item }) =>
            after_source(plan, target, item),
        (
            MergeStateView::AskedChildren { plan, target, source, merged },
            MergeEvent::Children { children },
        ) => after_children(plan, target, source, merged, views(children@)),
        (MergeStateView::Writing { plan, left, count }, MergeEvent::Written) => write_next(
            plan,
            left,
            count,
        ),
        (MergeStateView::AskedFresh { plan, count }, MergeEvent::Item { item }) => (
            MergeStateView::Trashing { plan, count },
            MergeActionView::TrashItem { key: plan.source_key, version: item.version },
        ),
        (MergeStateView::Trashing { plan, count }, MergeEvent::Written) => (
            MergeStateView::Over,
            MergeActionView::Done { text: merged_text(plan, count) },
        ),
        _ => failed(Seq::empty()),
    }
}

/// The plan that the arguments ask for: the first item survives, unless the second
/// is to be kept.
pub open spec fn planned(args: MergeArgs) -> Option<MergePlanView> {
    let first = MergePlanView {
        target_key: args.key1@,
        source_key: args.key2@,
        dry_run: args.dry_run,
    };
    match args.keep {
        None => Some(first),
        Some(k) => if k@ == args.key1@ {
            Some(first)
        } else if k@ == args.key2@ {
            Some(
                MergePlanView {
                    target_key: args.key2@,
                    source_key: args.key1@,
                    dry_run: args.dry_run,
                },
            )
        } else {
            None
        },
    }
}

/// Begins a merge: asks for the item that survives.
pub fn merge_start(args: &MergeArgs) -> (r: Result<(MergeState, MergeAction), McpError>)
    ensures
        match planned(*args) {
            Some(plan) => {
                &&& r matches Ok((state, action))
                &&& state@ == (MergeStateView::AskedTarget { plan })
                &&& action@ == (MergeActionView::GetItem { key: plan.target_key })
                &&& forall|event: MergeEvent| #[trigger]
                    action.answered_by(event) ==> state.awaits(event)
            },
            None => r matches Err(e) && e.says(
                ErrorKind::InternalError,
                "'keep' must equal key1 or key2"@,
            ),
        },
{
    let second = match &args.keep {
        Some(k) => if *k == args.key1 {
            false
        } else if *k == args.key2 {
            true
        } else {
            return Err(McpError::internal_error("'keep' must equal key1 or key2".to_owned()));
        },
        None => false,
    };
    let (target_key, source_key) = if second {
        (args.key2.clone(), args.key1.clone())
    } else {
        (args.key1.clone(), args.key2.clone())
    };
    let key = target_key.clone();
    let plan = MergePlan { target_key, source_key, dry_run: args.dry_run };
    Ok((MergeState::AskedTarget { plan }, MergeAction::GetItem { key }))
}

fn fail(message: String) -> (r: (MergeState, MergeAction))
    ensures
        (r.0@, r.1@) == failed(message@),
        r.1 is Fail,
{
    (MergeState::Over, MergeAction::Fail { error: McpError::internal_error(message) })
}

/// What is wrong with an item that is no top-level item.
fn refuse(label: &str, item: &ZoteroItem) -> (r: Option<String>)
    ensures
        r.deep_view() == (match child_type(*item) {
            Some(t) => Some(refusal(label@, *item, t)),
            None => None,
        }),
{
    match &item.data.item_type {
        Some(t) => {
            if same_text(t.as_str(), "attachment") || same_text(t.as_str(), "note") || same_text(
                t.as_str(),
                "annotation",
            ) {
                let mut out = label.to_owned();
                out.append(" (");
                out.append(item.key.as_str());
                out.append(") is a ");
                out.append(t.as_str());
                out.append(" -- only top-level items can be merged");
                Some(out)
            } else {
                None
            }
        },
        None => None,
    }
}

fn write_child(plan: MergePlan, children: Vec<Json>, next: usize) -> (r: (MergeState, MergeAction))
    requires
        next <= children@.len(),
    ensures
        (r.0@, r.1@) == write_next(plan@, views(children@).skip(next as int), children@.len()),
        forall|event: MergeEvent| #[trigger] r.1.answered_by(event) ==> r.0.awaits(event),
{
    let ghost left = views(children@).skip(next as int);
    if next == children.len() {
        let key = plan.source_key.clone();
        let count = children.len();
        return (MergeState::AskedFresh { plan, count }, MergeAction::GetItem { key });
    }
    let child = &children[next];
    assert(left[0] == child@);
    assert(left.skip(1) =~= views(children@).skip(next + 1));
    let key = match key_of(child) {
        Some(k) => k.to_owned(),
        None => return fail("child missing key".to_owned()),
    };
    let version = match child.get("version") {
        Some(v) => v.as_u64(),
        None => None,
    };
    match version {
        Some(version) => {
            let data = Json::Object(single("parentItem", Json::text(plan.target_key.as_str())));
            (
                MergeState::Writing { plan, children, next: next + 1 },
                MergeAction::PatchItem { key, version, data },
            )
        },
        None => fail("child missing version".to_owned()),
    }
}

/// Goes on with a merge after an event.
pub fn merge_step(state: MergeState, event: MergeEvent) -> (r: (MergeState, MergeAction))
    requires
        state.awaits(event),
    ensures
        (r.0@, r.1@) == merge_next(state@, event),
        forall|event: MergeEvent| #[trigger] r.1.answered_by(event) ==> r.0.awaits(event),
{
    match (state, event) {
        (_, MergeEvent::Refused { error }) => fail(error.message()),
        (MergeState::AskedTarget { plan }, MergeEvent::Item { item }) => {
            let key = plan.source_key.clone();
            (MergeState::AskedSource { plan, target: item }, MergeAction::GetItem { key })
        },
        (MergeState::AskedSource { plan, target }, MergeEvent::Item { item }) => {
            if let Some(message) = refuse("target", &target) {
                return fail(message);
            }
            if let Some(message) = refuse("source", &item) {
                return fail(message);
            }
            let merged = reconcile_items(&target, &item);
            let key = plan.source_key.clone();
            (
                MergeState::AskedChildren { plan, target, source: item, merged },
                MergeAction::GetChildren { key },
            )
        },
        (
            MergeState::AskedChildren { plan, target, source, merged },
            MergeEvent::Children { children },
        ) => {
            if plan.dry_run {
                return match try_dry_run_report(&target, &source, &merged, children.as_slice()) {
                    Some(text) => (MergeState::Over, MergeAction::Done { text }),
                    None => (MergeState::Over, MergeAction::Unprintable),
                };
            }
            let key = plan.target_key.clone();
            assert(views(children@).skip(0) =~= views(children@));
            (
                MergeState::Writing { plan, children, next: 0 },
                MergeAction::PatchItem { key, version: target.version, data: merged },
            )
        },
        (MergeState::Writing { plan, children, next }, MergeEvent::Written) => {
            write_child(plan, children, next)
        },
        (MergeState::AskedFresh { plan, count }, MergeEvent::Item { item }) => {
            let key = plan.source_key.clone();
            (
                MergeState::Trashing { plan, count },
                MergeAction::TrashItem { key, version: item.version },
            )
        },
        (MergeState::Trashing { plan, count }, MergeEvent::Written) => {
            let mut text = "merged ".to_owned();
            text.append(plan.source_key.as_str());
            text.append(" into ");
            text.append(plan.target_key.as_str());
            text.append(" (");
            text.append(decimal_text(count as u64).as_str());
            text.append(" child item(s) re-parented; source moved to trash)");
            (MergeState::Over, MergeAction::Done { text })
        },
        _ => fail(String::new()),
    }
}

/// The actions of a merge from a step on: the action of the step, and where an event
/// is left and the merge is not over, the actions that follow that event.
pub open spec fn course(
    step: (MergeStateView, MergeActionView),
    events: Seq<MergeEvent>,
) -> Seq<MergeActionView>
    decreases events.len(),
{
    if step.0 is Over || events.len() == 0 {
        seq![step.1]
    } else {
        seq![step.1] + course(merge_next(step.0, events[0]), events.skip(1))
    }
}

/// The first step of a merge.
pub open spec fn first_step(plan: MergePlanView) -> (MergeStateView, MergeActionView) {
    (MergeStateView::AskedTarget { plan }, MergeActionView::GetItem { key: plan.target_key })
}

/// An action behind the first is one of those that follow the first event.
proof fn lemma_course_tail(
    step: (MergeStateView, MergeActionView),
    events: Seq<MergeEvent>,
    i: int,
)
    requires
        0 < i < course(step, events).len(),
    ensures
        !(step.0 is Over),
        events.len() > 0,
        i - 1 < course(merge_next(step.0, events[0]), events.skip(1)).len(),
        course(step, events)[i] == course(merge_next(step.0, events[0]), events.skip(1))[i - 1],
{
}

/// Whether a state belongs to a dry run in which nothing was written.
spec fn only_reads(state: MergeStateView) -> bool {
    match state {
        MergeStateView::AskedTarget { plan } => plan.dry_run,
        MergeStateView::AskedSource { plan, .. } => plan.dry_run,
        MergeStateView::AskedChildren { plan, .. } => plan.dry_run,
        MergeStateView::Over => true,
        _ => false,
    }
}

proof fn lemma_only_reads(
    step: (MergeStateView, MergeActionView),
    events: Seq<MergeEvent>,
    i: int,
)
    requires
        only_reads(step.0),
        !step.1.writes(),
        0 <= i < course(step, events).len(),
    ensures
        !course(step, events)[i].writes(),
    decreases events.len(),
{
    if i > 0 {
        lemma_course_tail(step, events, i);
        lemma_only_reads(merge_next(step.0, events[0]), events.skip(1), i - 1);
    }
}

/// A dry run writes nothing, whatever the API answers.
pub proof fn lemma_dry_run_writes_nothing(plan: MergePlanView, events: Seq<MergeEvent>, i: int)
    requires
        plan.dry_run,
        0 <= i < course(first_step(plan), events).len(),
    ensures
        !course(first_step(plan), events)[i].writes(),
{
    lemma_only_reads(first_step(plan), events, i);
}

proof fn lemma_refusal_ends(
    step: (MergeStateView, MergeActionView),
    events: Seq<MergeEvent>,
    n: int,
)
    requires
        0 <= n < events.len(),
        events[n] is Refused,
    ensures
        course(step, events).len() <= n + 2,
        course(step, events).len() == n + 2 ==> course(step, events)[n + 1] == (
        MergeActionView::Fail {
            kind: ErrorKind::InternalError,
            message: events[n]->error.text(),
        }),
    decreases events.len(),
{
    if !(step.0 is Over) {
        let next = merge_next(step.0, events[0]);
        if n == 0 {
            assert(course(next, events.skip(1)) == seq![next.1]);
        } else {
            assert(events.skip(1)[n - 1] == events[n]);
            lemma_refusal_ends(next, events.skip(1), n - 1);
        }
    }
}

/// A failed request ends the merge: nothing is done after it, and the merge answers
/// with the error of that request.
pub proof fn lemma_refusal_ends_merge(plan: MergePlanView, events: Seq<MergeEvent>, n: int)
    requires
        0 <= n < events.len(),
        events[n] is Refused,
    ensures
        course(first_step(plan), events).len() <= n + 2,
        course(first_step(plan), events).len() == n + 2 ==> course(first_step(plan), events)[n + 1]
            == (MergeActionView::Fail {
            kind: ErrorKind::InternalError,
            message: events[n]->error.text(),
        }),
{
    lemma_refusal_ends(first_step(plan), events, n);
}

/// Whether a child can be given a new parent: its key and its version are known.
pub open spec fn movable(child: JsonView) -> bool {
    child_key(child) is Some && child_version(child) is Some
}

/// The write that gives a child a new parent.
pub open spec fn move_of(plan: MergePlanView, child: JsonView) -> MergeActionView {
    MergeActionView::PatchItem {
        key: child_key(child)->0,
        version: child_version(child)->0,
        data: reparent_payload(plan.target_key),
    }
}

/// The writes that give children a new parent.
pub open spec fn moves(plan: MergePlanView, children: Seq<JsonView>) -> Seq<MergeActionView> {
    children.map_values(|c: JsonView| move_of(plan, c))
}

/// What the API answers in the course of a merge that meets no error.
pub struct MergeAnswers {
    pub target: ZoteroItem,
    pub source: ZoteroItem,
    pub children: Vec<Json>,
    pub fresh: ZoteroItem,
}

/// The answers from the first child on: each child is written, the source is fetched
/// again and moved to the trash.
pub open spec fn last_answers(count: nat, fresh: ZoteroItem) -> Seq<MergeEvent> {
    Seq::new(count, |i: int| MergeEvent::Written) + seq![
        MergeEvent::Item { item: fresh },
        MergeEvent::Written,
    ]
}

/// The answers in their order.
pub open spec fn all_answers(answers: MergeAnswers) -> Seq<MergeEvent> {
    seq![
        MergeEvent::Item { item: answers.target },
        MergeEvent::Item { item: answers.source },
        MergeEvent::Children { children: answers.children },
        MergeEvent::Written,
    ] + last_answers(answers.children@.len(), answers.fresh)
}

/// The actions that end a merge when every child has its new parent.
pub open spec fn ending(plan: MergePlanView, fresh: ZoteroItem, count: nat) -> Seq<
    MergeActionView,
> {
    seq![
        MergeActionView::GetItem { key: plan.source_key },
        MergeActionView::TrashItem { key: plan.source_key, version: fresh.version },
        MergeActionView::Done { text: merged_text(plan, count) },
    ]
}

proof fn lemma_ending_course(plan: MergePlanView, count: nat, fresh: ZoteroItem)
    ensures
        course(write_next(plan, Seq::empty(), count), last_answers(0, fresh)) == ending(
            plan,
            fresh,
            count,
        ),
{
    let events = last_answers(0, fresh);
    assert(events =~= seq![MergeEvent::Item { item: fresh }, MergeEvent::Written]);
    let s0 = write_next(plan, Seq::empty(), count);
    let s1 = merge_next(s0.0, events[0]);
    let s2 = merge_next(s1.0, events[1]);
    assert(events.skip(1)[0] == events[1]);
    assert(course(s2, events.skip(1).skip(1)) == seq![s2.1]);
    assert(course(s1, events.skip(1)) == seq![s1.1] + seq![s2.1]);
    assert(course(s0, events) =~= ending(plan, fresh, count));
}

proof fn lemma_moves_course(
    plan: MergePlanView,
    left: Seq<JsonView>,
    count: nat,
    fresh: ZoteroItem,
)
    requires
        forall|i: int| 0 <= i < left.len() ==> movable(#[trigger] left[i]),
    ensures
        course(write_next(plan, left, count), last_answers(left.len(), fresh)) == moves(plan, left)
            + ending(plan, fresh, count),
    decreases left.len(),
{
    let end = ending(plan, fresh, count);
    if left.len() == 0 {
        assert(left =~= Seq::empty());
        lemma_ending_course(plan, count, fresh);
        assert(moves(plan, left) + end =~= end);
    } else {
        let rest = left.skip(1);
        let events = last_answers(left.len(), fresh);
        assert(movable(left[0]));
        assert forall|i: int| 0 <= i < rest.len() implies movable(#[trigger] rest[i]) by {
            assert(rest[i] == left[i + 1]);
        }
        lemma_moves_course(plan, rest, count, fresh);
        assert(events.skip(1) =~= last_answers(rest.len(), fresh));
        assert(events[0] == MergeEvent::Written);
        let step = write_next(plan, left, count);
        assert(step.1 == move_of(plan, left[0]));
        assert(merge_next(step.0, events[0]) == write_next(plan, rest, count));
        assert(course(step, events) =~= moves(plan, left) + end);
    }
}

/// The whole course of a merge of two top-level items whose children are known: both
/// items and the children of the source are fetched, the merged data is written to
/// the target, each child of the source gets the target as its parent, and only
/// then is the source, at its latest version, moved to the trash.
pub proof fn lemma_merge_course(plan: MergePlanView, answers: MergeAnswers)
    requires
        !plan.dry_run,
        child_type(answers.target) is None,
        child_type(answers.source) is None,
        forall|i: int|
            0 <= i < answers.children@.len() ==> movable(#[trigger] views(answers.children@)[i]),
    ensures
        course(first_step(plan), all_answers(answers)) == seq![
            MergeActionView::GetItem { key: plan.target_key },
            MergeActionView::GetItem { key: plan.source_key },
            MergeActionView::GetChildren { key: plan.source_key },
            MergeActionView::PatchItem {
                key: plan.target_key,
                version: answers.target.version,
                data: reconciled(answers.target, answers.source),
            },
        ] + moves(plan, views(answers.children@)) + ending(
            plan,
            answers.fresh,
            answers.children@.len(),
        ),
{
    let all = views(answers.children@);
    let e0 = all_answers(answers);
    let e1 = e0.skip(1);
    let e2 = e1.skip(1);
    let e3 = e2.skip(1);
    let e4 = e3.skip(1);
    assert(e4 =~= last_answers(all.len(), answers.fresh));
    let s0 = first_step(plan);
    let s1 = merge_next(s0.0, e0[0]);
    let s2 = merge_next(s1.0, e1[0]);
    let s3 = merge_next(s2.0, e2[0]);
    let s4 = merge_next(s3.0, e3[0]);
    assert(s3.0 == (MergeStateView::Writing { plan, left: all, count: all.len() }));
    assert(s4 == write_next(plan, all, all.len()));
    lemma_moves_course(plan, all, all.len(), answers.fresh);
    let tail = moves(plan, all) + ending(plan, answers.fresh, all.len());
    assert(course(s4, e4) == tail);
    assert(course(s3, e3) == seq![s3.1] + tail);
    assert(course(s2, e2) == seq![s2.1] + (seq![s3.1] + tail));
    assert(course(s1, e1) == seq![s1.1] + (seq![s2.1] + (seq![s3.1] + tail)));
    assert(course(s0, e0) =~= seq![s0.1, s1.1, s2.1, s3.1] + moves(plan, all) + ending(
        plan,
        answers.fresh,
        all.len(),
    ));
}

/// An attachment, a note or an annotation is never merged: the merge ends with an
/// error after both items were fetched.
pub proof fn lemma_child_items_are_refused(
    plan: MergePlanView,
    target: ZoteroItem,
    source: ZoteroItem,
    events: Seq<MergeEvent>,
)
    requires
        child_type(target) is Some || child_type(source) is Some,
        events.len() >= 2,
        events[0] == (MergeEvent::Item { item: target }),
        events[1] == (MergeEvent::Item { item: source }),
    ensures
        course(first_step(plan), events) == seq![
            MergeActionView::GetItem { key: plan.target_key },
            MergeActionView::GetItem { key: plan.source_key },
            MergeActionView::Fail {
                kind: ErrorKind::InternalError,
                message: match child_type(target) {
                    Some(t) => refusal("target"@, target, t),
                    None => refusal("source"@, source, child_type(source)->0),
                },
            },
        ],
{
    let s0 = first_step(plan);
    let s1 = merge_next(s0.0, events[0]);
    let s2 = merge_next(s1.0, events[1]);
    assert(events.skip(1)[0] == events[1]);
    assert(course(s2, events.skip(1).skip(1)) == seq![s2.1]);
    assert(course(s1, events.skip(1)) == seq![s1.1] + seq![s2.1]);
    assert(course(s0, events) =~= seq![s0.1, s1.1, s2.1]);
}

/// Whether the children were all given their new parent, one after the other, and each
/// of these writes was made.
pub open spec fn all_moved(
    plan: MergePlanView,
    children: Seq<JsonView>,
    actions: Seq<MergeActionView>,
    events: Seq<MergeEvent>,
) -> bool {
    &&& children.len() <= actions.len()
    &&& children.len() <= events.len()
    &&& forall|j: int|
        0 <= j < children.len() ==> {
            &&& movable(#[trigger] children[j])
            &&& actions[j] == move_of(plan, children[j])
            &&& events[j] is Written
        }
}

proof fn lemma_trash_after_fresh(plan: MergePlanView, count: nat, events: Seq<MergeEvent>, i: int)
    requires
        0 <= i < course(write_next(plan, Seq::empty(), count), events).len(),
        course(write_next(plan, Seq::empty(), count), events)[i] is TrashItem,
    ensures
        i == 1,
{
    let s0 = write_next(plan, Seq::empty(), count);
    lemma_course_tail(s0, events, i);
    let s1 = merge_next(s0.0, events[0]);
    if i > 1 {
        lemma_course_tail(s1, events.skip(1), i - 1);
        let s2 = merge_next(s1.0, events.skip(1)[0]);
        assert(s2.0 is Over);
        assert(course(s2, events.skip(1).skip(1)) == seq![s2.1]);
    }
}

proof fn lemma_trash_after_moves(
    plan: MergePlanView,
    left: Seq<JsonView>,
    count: nat,
    events: Seq<MergeEvent>,
    i: int,
)
    requires
        0 <= i < course(write_next(plan, left, count), events).len(),
        course(write_next(plan, left, count), events)[i] is TrashItem,
    ensures
        i == left.len() + 1,
        all_moved(plan, left, course(write_next(plan, left, count), events), events),
    decreases left.len(),
{
    let step = write_next(plan, left, count);
    let c = course(step, events);
    if left.len() == 0 {
        assert(left =~= Seq::empty());
        lemma_trash_after_fresh(plan, count, events, i);
    } else {
        assert(i > 0);
        lemma_course_tail(step, events, i);
        let rest = left.skip(1);
        let next = merge_next(step.0, events[0]);
        let tail = course(next, events.skip(1));
        assert(movable(left[0]));
        if !(events[0] is Written) {
            assert(tail == seq![next.1]);
        }
        assert(next == write_next(plan, rest, count));
        lemma_trash_after_moves(plan, rest, count, events.skip(1), i - 1);
        assert forall|j: int| 0 <= j < left.len() implies {
            &&& movable(#[trigger] left[j])
            &&& c[j] == move_of(plan, left[j])
            &&& events[j] is Written
        } by {
            if j > 0 {
                assert(rest[j - 1] == left[j]);
                assert(c[j] == tail[j - 1]);
                assert(events.skip(1)[j - 1] == events[j]);
            }
        }
    }
}

/// From the answer with the children on.
proof fn lemma_trash_after_children(
    plan: MergePlanView,
    target: ZoteroItem,
    source: ZoteroItem,
    merged: JsonView,
    children: Seq<JsonView>,
    events: Seq<MergeEvent>,
    i: int,
)
    requires
        0 <= i < course(after_children(plan, target, source, merged, children), events).len(),
        course(after_children(plan, target, source, merged, children), events)[i] is TrashItem,
    ensures
        ({
            let c = course(after_children(plan, target, source, merged, children), events);
            &&& i == children.len() + 2
            &&& c[0] == (MergeActionView::PatchItem {
                key: plan.target_key,
                version: target.version,
                data: merged,
            })
            &&& events[0] is Written
            &&& all_moved(plan, children, c.skip(1), events.skip(1))
        }),
{
    let step = after_children(plan, target, source, merged, children);
    let c = course(step, events);
    assert(i > 0);
    lemma_course_tail(step, events, i);
    let next = merge_next(step.0, events[0]);
    if !(events[0] is Written) {
        assert(course(next, events.skip(1)) == seq![next.1]);
    }
    assert(next == write_next(plan, children, children.len()));
    lemma_trash_after_moves(plan, children, children.len(), events.skip(1), i - 1);
    assert(c.skip(1) =~= course(next, events.skip(1)));
}

/// The first three answers of a merge that goes on to write.
proof fn lemma_trash_after_reads(plan: MergePlanView, events: Seq<MergeEvent>, i: int)
    requires
        0 <= i < course(first_step(plan), events).len(),
        course(first_step(plan), events)[i] is TrashItem,
    ensures
        i >= 3,
        events.len() >= 3,
        events[0] is Item,
        events[1] is Item,
        events[2] is Children,
        ({
            let target = events[0]->item;
            let source = events[1]->item;
            let step = after_children(
                plan,
                target,
                source,
                reconciled(target, source),
                views(events[2]->children@),
            );
            &&& i - 3 < course(step, events.skip(3)).len()
            &&& course(first_step(plan), events).skip(3) == course(step, events.skip(3))
        }),
{
    let s0 = first_step(plan);
    lemma_course_tail(s0, events, i);
    let e1 = events.skip(1);
    let s1 = merge_next(s0.0, events[0]);
    if !(events[0] is Item) {
        assert(course(s1, e1) == seq![s1.1]);
    }
    lemma_course_tail(s1, e1, i - 1);
    let e2 = e1.skip(1);
    assert(e1[0] == events[1]);
    let s2 = merge_next(s1.0, events[1]);
    if s2.0 is Over {
        assert(course(s2, e2) == seq![s2.1]);
    }
    lemma_course_tail(s2, e2, i - 2);
    assert(e2[0] == events[2]);
    let s3 = merge_next(s2.0, events[2]);
    if !(events[2] is Children) {
        assert(course(s3, e2.skip(1)) == seq![s3.1]);
    }
    assert(e2.skip(1) =~= events.skip(3));
    assert(course(s0, events).skip(3) =~= course(s3, events.skip(3)));
}

/// The source is moved to the trash only after the target was written and every one of
/// its children was given its new parent, each of these writes having been made,
/// whatever the API answers.
pub proof fn lemma_no_orphans(plan: MergePlanView, events: Seq<MergeEvent>, i: int)
    requires
        0 <= i < course(first_step(plan), events).len(),
        course(first_step(plan), events)[i] is TrashItem,
    ensures
        events.len() >= 4,
        events[2] is Children,
        events[3] is Written,
        ({
            let c = course(first_step(plan), events);
            let children = views(events[2]->children@);
            &&& i == children.len() + 5
            &&& c[3] == (MergeActionView::PatchItem {
                key: plan.target_key,
                version: events[0]->item.version,
                data: reconciled(events[0]->item, events[1]->item),
            })
            &&& all_moved(plan, children, c.skip(4), events.skip(4))
        }),
{
    lemma_trash_after_reads(plan, events, i);
    let c = course(first_step(plan), events);
    let target = events[0]->item;
    let source = events[1]->item;
    let children = views(events[2]->children@);
    assert(c.skip(3)[i - 3] == c[i]);
    lemma_trash_after_children(
        plan,
        target,
        source,
        reconciled(target, source),
        children,
        events.skip(3),
        i - 3,
    );
    let step = after_children(plan, target, source, reconciled(target, source), children);
    lemma_course_tail(step, events.skip(3), i - 3);
    assert(c.skip(3)[0] == c[3]);
    assert(events.skip(3)[0] == events[3]);
    assert(c.skip(3).skip(1) =~= c.skip(4));
    assert(events.skip(3).skip(1) =~= events.skip(4));
}

} // verus!
