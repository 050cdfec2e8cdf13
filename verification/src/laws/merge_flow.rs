//! Laws of the course of a merge, step by step.

use crate::error::{ErrorKind, McpError};
use crate::json::{field, object, views, Entries, JsonView};
use crate::laws::json::law_object;
use crate::laws::merge::{is_preview, lemma_preview, lemma_showable_changes, shows_all_changes};
use crate::merge::reconciled;
use crate::merge_flow::{
    merge_start, merge_step, MergeAction, MergeActionView, MergeEvent, MergePlanView, MergeState,
    MergeStateView,
};
use crate::text::decimal;
use crate::tools::MergeArgs;
use crate::types::ZoteroItem;
use vstd::prelude::*;
use vstd::string::*;

verus! {

/// The first item survives a merge where nothing else is asked for or the first is to be
/// kept, the second one where it is to be kept; what is to be kept must be one of the two.
/// A merge begins with the question for the item that survives.
pub proof fn law_merge_start(
    args: &MergeArgs,
    r: Result<(MergeState, MergeAction), McpError>,
)
    requires
        call_ensures(merge_start, (args,), r),
    ensures
        args.keep is None || args.keep->0@ == args.key1@ ==> {
            &&& r is Ok
            &&& r->Ok_0.0@ == (MergeStateView::AskedTarget {
                plan: MergePlanView {
                    target_key: args.key1@,
                    source_key: args.key2@,
                    dry_run: args.dry_run,
                },
            })
            &&& r->Ok_0.1@ == (MergeActionView::GetItem { key: args.key1@ })
        },
        args.keep is Some && args.keep->0@ != args.key1@ && args.keep->0@ == args.key2@ ==> {
            &&& r is Ok
            &&& r->Ok_0.0@ == (MergeStateView::AskedTarget {
                plan: MergePlanView {
                    target_key: args.key2@,
                    source_key: args.key1@,
                    dry_run: args.dry_run,
                },
            })
            &&& r->Ok_0.1@ == (MergeActionView::GetItem { key: args.key2@ })
        },
        args.keep is Some && args.keep->0@ != args.key1@ && args.keep->0@ != args.key2@ ==> {
            &&& r is Err
            &&& r->Err_0.kind == ErrorKind::InternalError
            &&& r->Err_0.message@ == "'keep' must equal key1 or key2"@
        },
{
}

/// Whether a step ends a merge with an internal error that says a text.
pub open spec fn ends_with(r: (MergeState, MergeAction), message: Seq<char>) -> bool {
    &&& r.0@ is Over
    &&& r.1@ == (MergeActionView::Fail { kind: ErrorKind::InternalError, message })
}

/// A request that fails ends a merge, whatever it waits for, with what the failure says.
pub proof fn law_merge_refused(state: MergeState, event: MergeEvent, r: (MergeState, MergeAction))
    requires
        call_ensures(merge_step, (state, event), r),
        event is Refused,
    ensures
        ends_with(r, event->error.text()),
{
}

/// When the target is there, the source is asked for.
pub proof fn law_merge_has_target(
    state: MergeState,
    event: MergeEvent,
    r: (MergeState, MergeAction),
)
    requires
        call_ensures(merge_step, (state, event), r),
        state is AskedTarget,
        event is Item,
    ensures
        r.0@ == (MergeStateView::AskedSource {
            plan: state->AskedTarget_plan@,
            target: event->item,
        }),
        r.1@ == (MergeActionView::GetItem { key: state->AskedTarget_plan.source_key@ }),
{
}

/// Whether an item is an attachment, a note or an annotation.
pub open spec fn has_parent(item: ZoteroItem) -> bool {
    &&& item.data.item_type is Some
    &&& {
        ||| item.data.item_type->0@ == "attachment"@
        ||| item.data.item_type->0@ == "note"@
        ||| item.data.item_type->0@ == "annotation"@
    }
}

/// When the source is there as well, the merge ends with an error where the target, or
/// else the source, is an attachment, a note or an annotation. In all other cases the two
/// are merged and the children of the source are asked for.
pub proof fn law_merge_has_source(
    state: MergeState,
    event: MergeEvent,
    r: (MergeState, MergeAction),
)
    requires
        call_ensures(merge_step, (state, event), r),
        state is AskedSource,
        event is Item,
    ensures
        ({
            let target = state->AskedSource_target;
            let source = event->item;
            &&& has_parent(target) ==> ends_with(
                r,
                "target"@ + " ("@ + target.key@ + ") is a "@ + target.data.item_type->0@
                    + " -- only top-level items can be merged"@,
            )
            &&& !has_parent(target) && has_parent(source) ==> ends_with(
                r,
                "source"@ + " ("@ + source.key@ + ") is a "@ + source.data.item_type->0@
                    + " -- only top-level items can be merged"@,
            )
            &&& !has_parent(target) && !has_parent(source) ==> {
                &&& r.0@ == (MergeStateView::AskedChildren {
                    plan: state->AskedSource_plan@,
                    target,
                    source,
                    merged: reconciled(target, source),
                })
                &&& r.1@ == (MergeActionView::GetChildren {
                    key: state->AskedSource_plan.source_key@,
                })
            }
        }),
{
}

/// When the children of the source are there, a dry run ends with the preview, where every
/// value in it can be shown, and writes nothing. Any other merge writes the merged data to
/// the target, for the version that was fetched, and has all children left to move.
pub proof fn law_merge_has_children(
    state: MergeState,
    event: MergeEvent,
    r: (MergeState, MergeAction),
)
    requires
        call_ensures(merge_step, (state, event), r),
        state is AskedChildren,
        event is Children,
        state->merged@ is Object,
    ensures
        ({
            let plan = state->AskedChildren_plan;
            let target = state->AskedChildren_target;
            let source = state->source;
            let merged = state->merged@;
            let children = views(event->children@);
            &&& plan.dry_run ==> r.0@ is Over
            &&& plan.dry_run && shows_all_changes(target, merged) ==> {
                &&& r.1@ is Done
                &&& is_preview(r.1@->text, target, source, merged, children.len())
            }
            &&& plan.dry_run && !shows_all_changes(target, merged) ==> r.1@ is Unprintable
            &&& !plan.dry_run ==> {
                &&& r.0@ == (MergeStateView::Writing {
                    plan: plan@,
                    left: children,
                    count: children.len(),
                })
                &&& r.1@ == (MergeActionView::PatchItem {
                    key: plan.target_key@,
                    version: target.version,
                    data: merged,
                })
            }
        }),
{
    let target = state->AskedChildren_target;
    let merged = state->merged@;
    lemma_preview(target, state->source, merged, views(event->children@).len());
    lemma_showable_changes(target, merged);
}

/// Whether a value sets the parent of an item, and nothing else.
pub open spec fn sets_parent(v: JsonView, parent: Seq<char>) -> bool {
    &&& field(v, "parentItem"@) == Some(JsonView::Text(parent))
    &&& forall|k: Seq<char>| k != "parentItem"@ ==> #[trigger] field(v, k) is None
}

/// When a write is done and a child is left, that child gets the target as its parent, for
/// the version that the child has; a child without a key or a version ends the merge with
/// an error. The other children are left as they were.
pub proof fn law_merge_moves_child(
    state: MergeState,
    event: MergeEvent,
    r: (MergeState, MergeAction),
)
    requires
        call_ensures(merge_step, (state, event), r),
        state@ is Writing,
        event is Written,
        state@->left.len() > 0,
    ensures
        ({
            let plan = state@->Writing_plan;
            let child = state@->left[0];
            let key = field(child, "key"@);
            let version = field(child, "version"@);
            let numbered = version matches Some(JsonView::Unsigned(_)) || (
            version matches Some(JsonView::Negative(n)) && n >= 0);
            &&& !(key matches Some(JsonView::Text(_))) ==> ends_with(r, "child missing key"@)
            &&& (key matches Some(JsonView::Text(_))) && !numbered ==> ends_with(
                r,
                "child missing version"@,
            )
            &&& (key matches Some(JsonView::Text(_))) && numbered ==> {
                &&& r.0@ == (MergeStateView::Writing {
                    plan,
                    left: state@->left.skip(1),
                    count: state@->Writing_count,
                })
                &&& r.1@ is PatchItem
                &&& Some(JsonView::Text(r.1@->PatchItem_key)) == key
                &&& version matches Some(JsonView::Unsigned(n)) ==> r.1@->PatchItem_version == n
                &&& version matches Some(JsonView::Negative(n)) ==> r.1@->PatchItem_version == n
                &&& sets_parent(r.1@->data, plan.target_key)
            }
        }),
{
    let parent = state@->Writing_plan.target_key;
    let pairs: Entries = seq![("parentItem"@, JsonView::Text(parent))];
    let payload = JsonView::Object(object(pairs));
    assert(pairs[0].0 == "parentItem"@);
    law_object(pairs, "parentItem"@);
    assert forall|k: Seq<char>| k != "parentItem"@ implies #[trigger] field(payload, k) is None by {
        law_object(pairs, k);
    }
    assert(sets_parent(payload, parent));
}

/// When no child is left, the source is asked for once more.
pub proof fn law_merge_has_moved(
    state: MergeState,
    event: MergeEvent,
    r: (MergeState, MergeAction),
)
    requires
        call_ensures(merge_step, (state, event), r),
        state@ is Writing,
        event is Written,
        state@->left.len() == 0,
    ensures
        r.0@ == (MergeStateView::AskedFresh {
            plan: state@->Writing_plan,
            count: state@->Writing_count,
        }),
        r.1@ == (MergeActionView::GetItem { key: state@->Writing_plan.source_key }),
{
}

/// The source goes to the trash in the version that was just fetched.
pub proof fn law_merge_trashes(
    state: MergeState,
    event: MergeEvent,
    r: (MergeState, MergeAction),
)
    requires
        call_ensures(merge_step, (state, event), r),
        state is AskedFresh,
        event is Item,
    ensures
        r.0@ == (MergeStateView::Trashing {
            plan: state->AskedFresh_plan@,
            count: state->AskedFresh_count as nat,
        }),
        r.1@ == (MergeActionView::TrashItem {
            key: state->AskedFresh_plan.source_key@,
            version: event->item.version,
        }),
{
}

/// A merge ends with a text that names both items and how many children were moved.
pub proof fn law_merge_is_done(
    state: MergeState,
    event: MergeEvent,
    r: (MergeState, MergeAction),
)
    requires
        call_ensures(merge_step, (state, event), r),
        state is Trashing,
        event is Written,
    ensures
        r.0@ is Over,
        r.1@ == (MergeActionView::Done {
            text: "merged "@ + state->Trashing_plan.source_key@ + " into "@
                + state->Trashing_plan.target_key@ + " ("@ + decimal(
                state->Trashing_count as nat,
            ) + " child item(s) re-parented; source moved to trash)"@,
        }),
{
}

/// A merge takes every answer to what it asks for: the item, the children or the end of the
/// write, and a failure in any case.
pub proof fn law_merge_goes_on(
    state: MergeState,
    event: MergeEvent,
    r: (MergeState, MergeAction),
    next: MergeEvent,
)
    requires
        call_ensures(merge_step, (state, event), r),
    ensures
        r.1 is GetItem && (next is Item || next is Refused) ==> call_requires(
            merge_step,
            (r.0, next),
        ),
        r.1 is GetChildren && (next is Children || next is Refused) ==> call_requires(
            merge_step,
            (r.0, next),
        ),
        (r.1 is PatchItem || r.1 is TrashItem) && (next is Written || next is Refused)
            ==> call_requires(merge_step, (r.0, next)),
{
    if r.1 is GetItem && (next is Item || next is Refused) {
        assert(r.1.answered_by(next));
    }
    if r.1 is GetChildren && (next is Children || next is Refused) {
        assert(r.1.answered_by(next));
    }
    if (r.1 is PatchItem || r.1 is TrashItem) && (next is Written || next is Refused) {
        assert(r.1.answered_by(next));
    }
}

} // verus!
