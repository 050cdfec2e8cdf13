//! Laws of merging two items.

use crate::json::{compact_text, field, keys, lookup, same, text_list, Entries, Json, JsonView};
use crate::laws::text::law_sorted_set;
use crate::laws::types::{law_item_fields, law_written_tags, undeclared};
use crate::merge::{
    blank, build_dry_run_report, change_lines, change_showable, changes, changes_showable,
    is_empty, lemma_reconciled, merged_field, missing, reconcile_items, report, report_lines,
    showable, shown, try_dry_run_report,
};
use crate::text::{before, can_shorten, decimal, increasing, joined, shortened, sorted_set, texts};
use crate::types::{item_fields, tag_list, tag_names, ZoteroItem};
use vstd::prelude::*;
use vstd::string::*;

verus! {

/// Whether a field has no content: it is missing, null, a text without characters or an
/// array without items.
pub open spec fn without_content(v: Option<JsonView>) -> bool {
    ||| v is None
    ||| v == Some(JsonView::Null)
    ||| v == Some(JsonView::Text(Seq::empty()))
    ||| v == Some(JsonView::Array(Seq::empty()))
}

/// What counts as a field without content.
pub proof fn law_is_empty(val: Option<&Json>, r: bool)
    requires
        call_ensures(is_empty, (val,), r),
    ensures
        val is None ==> r,
        val is Some ==> (r <==> without_content(Some(val->0@))),
{
    if let Some(j) = val {
        match j@ {
            JsonView::Text(t) => {
                assert(t.len() == 0 ==> t =~= Seq::empty());
            },
            JsonView::Array(a) => {
                assert(a.len() == 0 ==> a =~= Seq::empty());
            },
            _ => {},
        }
    }
}

/// The fields of the data of an item.
pub open spec fn data_of(item: ZoteroItem) -> JsonView {
    JsonView::Object(item_fields(item.data))
}

/// Every field but for the key, the version, the item type, the two dates that Zotero
/// keeps, the tags, the collections and the creators is taken from the source where the
/// target has no content and the source has some; in all other cases it is that of the
/// target.
pub proof fn law_merged_field(target: &ZoteroItem, source: &ZoteroItem, r: Json, k: Seq<char>)
    requires
        call_ensures(reconcile_items, (target, source), r),
        k != "key"@,
        k != "version"@,
        k != "itemType"@,
        k != "dateAdded"@,
        k != "dateModified"@,
        k != "tags"@,
        k != "collections"@,
        k != "creators"@,
    ensures
        r@ is Object,
        without_content(field(data_of(*target), k)) && !without_content(
            field(data_of(*source), k),
        ) ==> field(r@, k) == field(data_of(*source), k),
        without_content(field(data_of(*source), k)) || !without_content(
            field(data_of(*target), k),
        ) ==> field(r@, k) == field(data_of(*target), k),
{
    lemma_reconciled(*target, *source);
    assert(lookup(r@->Object_0, k) == merged_field(*target, *source, k));
    lemma_without_content(lookup(item_fields(target.data), k));
    lemma_without_content(lookup(item_fields(source.data), k));
}

proof fn lemma_without_content(v: Option<JsonView>)
    ensures
        blank(v) <==> without_content(v),
{
    match v {
        Some(JsonView::Text(t)) => {
            assert(t.len() == 0 ==> t =~= Seq::empty());
        },
        Some(JsonView::Array(a)) => {
            assert(a.len() == 0 ==> a =~= Seq::empty());
        },
        _ => {},
    }
}

/// The key, the version, the item type, the dates of adding and changing and the creators
/// are those of the target, whatever the source has.
pub proof fn law_merged_identity(target: &ZoteroItem, source: &ZoteroItem, r: Json)
    requires
        call_ensures(reconcile_items, (target, source), r),
    ensures
        field(r@, "key"@) == field(data_of(*target), "key"@),
        field(r@, "version"@) == field(data_of(*target), "version"@),
        field(r@, "itemType"@) == field(data_of(*target), "itemType"@),
        field(r@, "dateAdded"@) == field(data_of(*target), "dateAdded"@),
        field(r@, "dateModified"@) == field(data_of(*target), "dateModified"@),
        field(r@, "creators"@) == field(data_of(*target), "creators"@),
{
    lemma_reconciled(*target, *source);
    lemma_rule_names();
    let m = r@->Object_0;
    assert(lookup(m, "key"@) == merged_field(*target, *source, "key"@));
    assert(lookup(m, "version"@) == merged_field(*target, *source, "version"@));
    assert(lookup(m, "itemType"@) == merged_field(*target, *source, "itemType"@));
    assert(lookup(m, "dateAdded"@) == merged_field(*target, *source, "dateAdded"@));
    assert(lookup(m, "dateModified"@) == merged_field(*target, *source, "dateModified"@));
    assert(lookup(m, "creators"@) == merged_field(*target, *source, "creators"@));
}

/// The names of the fields with a rule of their own are neither `tags` nor `collections`,
/// but for these two, and none of them is a field that is filled.
proof fn lemma_rule_names()
    ensures
        "key"@.len() == 3 && "key"@[0] == 'k',
        "version"@.len() == 7,
        "itemType"@.len() == 8 && "itemType"@[0] == 'i',
        "dateAdded"@.len() == 9,
        "dateModified"@.len() == 12 && "dateModified"@[0] == 'd',
        "creators"@.len() == 8 && "creators"@[0] == 'c',
        "tags"@.len() == 4 && "tags"@[0] == 't',
        "collections"@.len() == 11,
        "abstractNote"@.len() == 12 && "abstractNote"@[0] == 'a',
        "title"@.len() == 5,
        "date"@.len() == 4 && "date"@[0] == 'd',
        "doi"@.len() == 3 && "doi"@[0] == 'd',
        "url"@.len() == 3 && "url"@[0] == 'u',
{
    reveal_strlit("key");
    reveal_strlit("version");
    reveal_strlit("itemType");
    reveal_strlit("dateAdded");
    reveal_strlit("dateModified");
    reveal_strlit("creators");
    reveal_strlit("tags");
    reveal_strlit("collections");
    reveal_strlit("abstractNote");
    reveal_strlit("title");
    reveal_strlit("date");
    reveal_strlit("doi");
    reveal_strlit("url");
}

/// Whether an optional text is absent or has no characters.
pub open spec fn no_text(t: Option<String>) -> bool {
    t is None || t->0@ == Seq::<char>::empty()
}

/// Whether the merged field is that of the source where only the source has one, and that
/// of the target where it has one.
pub open spec fn taken_over(
    target: Option<String>,
    source: Option<String>,
    merged: Option<JsonView>,
) -> bool {
    &&& no_text(target) && !no_text(source) ==> merged == Some(JsonView::Text(source->0@))
    &&& !no_text(target) ==> merged == Some(JsonView::Text(target->0@))
}

/// The abstract, the title, the date, the DOI and the web address of the source are taken
/// over where the target has none or an empty one, and nowhere else.
pub proof fn law_merge_takes_over(target: &ZoteroItem, source: &ZoteroItem, r: Json)
    requires
        call_ensures(reconcile_items, (target, source), r),
        increasing(keys(target.data.extra@)),
        increasing(keys(source.data.extra@)),
        undeclared(target.data),
        undeclared(source.data),
    ensures
        taken_over(
            target.data.abstract_note,
            source.data.abstract_note,
            field(r@, "abstractNote"@),
        ),
        taken_over(target.data.title, source.data.title, field(r@, "title"@)),
        taken_over(target.data.date, source.data.date, field(r@, "date"@)),
        taken_over(target.data.doi, source.data.doi, field(r@, "doi"@)),
        taken_over(target.data.url, source.data.url, field(r@, "url"@)),
{
    lemma_rule_names();
    law_item_fields(target.data, 0);
    law_item_fields(source.data, 0);
    law_merged_field(target, source, r, "abstractNote"@);
    law_merged_field(target, source, r, "title"@);
    law_merged_field(target, source, r, "date"@);
    law_merged_field(target, source, r, "doi"@);
    law_merged_field(target, source, r, "url"@);
}

/// Whether names are those of either list and no others, each once and in their order.
pub open spec fn are_united(
    names: Seq<Seq<char>>,
    target: Seq<Seq<char>>,
    source: Seq<Seq<char>>,
) -> bool {
    &&& forall|i: int, j: int|
        0 <= i < j < names.len() ==> before(#[trigger] names[i], #[trigger] names[j])
    &&& forall|n: Seq<char>| #[trigger]
        names.contains(n) <==> target.contains(n) || source.contains(n)
}

/// The tags of the merged item are those of either item and no others, each once, as
/// objects with the name under `tag`, in the order of the names.
pub proof fn law_merged_tags(target: &ZoteroItem, source: &ZoteroItem, r: Json)
    requires
        call_ensures(reconcile_items, (target, source), r),
    ensures
        exists|names: Seq<Seq<char>>|
            {
                &&& #[trigger] are_united(
                    names,
                    tag_names(target.data.tags@),
                    tag_names(source.data.tags@),
                )
                &&& field(r@, "tags"@) is Some
                &&& field(r@, "tags"@)->0 is Array
                &&& field(r@, "tags"@)->0->Array_0.len() == names.len()
                &&& forall|i: int|
                    0 <= i < names.len() ==> field(
                        field(r@, "tags"@)->0->Array_0[i],
                        "tag"@,
                    ) == Some(JsonView::Text(#[trigger] names[i]))
            },
{
    lemma_reconciled(*target, *source);
    lemma_rule_names();
    let a = tag_names(target.data.tags@);
    let b = tag_names(source.data.tags@);
    let names = sorted_set(a + b);
    assert(lookup(r@->Object_0, "tags"@) == merged_field(*target, *source, "tags"@));
    law_sorted_set(a + b);
    lemma_sum_members(a, b);
    assert(are_united(names, a, b));
    law_written_tags(target.data.tags@, names, "tag"@);
    assert(field(r@, "tags"@) == Some(tag_list(names)));
    assert forall|i: int| 0 <= i < names.len() implies field(
        field(r@, "tags"@)->0->Array_0[i],
        "tag"@,
    ) == Some(JsonView::Text(#[trigger] names[i])) by {
        assert(field(tag_list(names)->Array_0[i], "tag"@) == Some(JsonView::Text(names[i])));
    }
}

proof fn lemma_sum_members(a: Seq<Seq<char>>, b: Seq<Seq<char>>)
    ensures
        forall|n: Seq<char>| #[trigger]
            (a + b).contains(n) <==> a.contains(n) || b.contains(n),
{
    assert forall|n: Seq<char>| #[trigger] (a + b).contains(n) <==> a.contains(n) || b.contains(
        n,
    ) by {
        if a.contains(n) {
            assert((a + b)[a.index_of(n)] == n);
        }
        if b.contains(n) {
            assert((a + b)[a.len() + b.index_of(n)] == n);
        }
        if (a + b).contains(n) {
            let i = (a + b).index_of(n);
            if i < a.len() {
                assert(a[i] == n);
            } else {
                assert(b[i - a.len()] == n);
            }
        }
    }
}

/// The collections of the merged item are those of either item and no others, each once,
/// in their order.
pub proof fn law_merged_collections(target: &ZoteroItem, source: &ZoteroItem, r: Json)
    requires
        call_ensures(reconcile_items, (target, source), r),
    ensures
        exists|names: Seq<Seq<char>>|
            {
                &&& #[trigger] are_united(
                    names,
                    texts(target.data.collections@),
                    texts(source.data.collections@),
                )
                &&& field(r@, "collections"@) is Some
                &&& field(r@, "collections"@)->0 is Array
                &&& field(r@, "collections"@)->0->Array_0.len() == names.len()
                &&& forall|i: int|
                    0 <= i < names.len() ==> field(r@, "collections"@)->0->Array_0[i]
                        == JsonView::Text(#[trigger] names[i])
            },
{
    lemma_reconciled(*target, *source);
    let a = texts(target.data.collections@);
    let b = texts(source.data.collections@);
    let names = sorted_set(a + b);
    assert(lookup(r@->Object_0, "collections"@) == merged_field(*target, *source, "collections"@));
    law_sorted_set(a + b);
    lemma_sum_members(a, b);
    assert(are_united(names, a, b));
    assert(field(r@, "collections"@) == Some(text_list(names)));
}

/// How a value is shown in a preview: nothing as `(none)`, an empty text or list as
/// `(empty)`, a text as itself and any other value as JSON, each cut where it is long.
pub proof fn law_shown(v: JsonView, t: Seq<char>)
    ensures
        shown(JsonView::Null) == "(none)"@,
        shown(JsonView::Text(Seq::empty())) == "(empty)"@,
        shown(JsonView::Array(Seq::empty())) == "(empty)"@,
        t.len() > 0 ==> shown(JsonView::Text(t)) == shortened(t),
        !without_content(Some(v)) && !(v is Text) ==> shown(v) == shortened(compact_text(v)),
        showable(JsonView::Null),
        showable(JsonView::Array(Seq::empty())),
        showable(JsonView::Text(t)) == can_shorten(t),
        !without_content(Some(v)) && !(v is Text) ==> showable(v) == can_shorten(compact_text(v)),
{
    if let JsonView::Array(a) = v {
        assert(a.len() == 0 ==> a =~= Seq::empty());
    }
}

/// Whether a value under a name is a change that a preview reports: the name is none of
/// those that a merge treats by a rule of their own, and the target has no such field or
/// another value under it.
pub open spec fn is_reported(target: Entries, k: Seq<char>, v: JsonView) -> bool {
    &&& k != "key"@
    &&& k != "version"@
    &&& k != "itemType"@
    &&& k != "dateAdded"@
    &&& k != "dateModified"@
    &&& k != "tags"@
    &&& k != "collections"@
    &&& k != "creators"@
    &&& lookup(target, k) is None || !same(lookup(target, k)->0, v)
}

/// One more field of the merged data adds one line behind the others where it is a change,
/// with the value before and the value after it; any other field adds none.
pub proof fn law_change_lines(target: Entries, merged: Entries, k: Seq<char>, v: JsonView)
    ensures
        change_lines(target, Seq::empty()) == Seq::<Seq<char>>::empty(),
        !is_reported(target, k, v) ==> change_lines(target, merged.push((k, v))) == change_lines(
            target,
            merged,
        ),
        is_reported(target, k, v) && lookup(target, k) is None ==> change_lines(
            target,
            merged.push((k, v)),
        ) == change_lines(target, merged).push("  "@ + k + ": "@ + "(none)"@ + " -> "@ + shown(v)),
        is_reported(target, k, v) && lookup(target, k) is Some ==> change_lines(
            target,
            merged.push((k, v)),
        ) == change_lines(target, merged).push(
            "  "@ + k + ": "@ + shown(lookup(target, k)->0) + " -> "@ + shown(v),
        ),
{
    assert(merged.push((k, v)).drop_last() =~= merged);
}

/// Whether names are those that the source has and the target has not, each once and in
/// their order.
pub open spec fn are_new(
    names: Seq<Seq<char>>,
    target: Seq<Seq<char>>,
    source: Seq<Seq<char>>,
) -> bool {
    &&& forall|i: int, j: int|
        0 <= i < j < names.len() ==> before(#[trigger] names[i], #[trigger] names[j])
    &&& forall|n: Seq<char>| #[trigger]
        names.contains(n) <==> source.contains(n) && !target.contains(n)
}

proof fn lemma_new(target: Seq<Seq<char>>, source: Seq<Seq<char>>)
    ensures
        are_new(sorted_set(missing(source, target)), target, source),
{
    let p = |x: Seq<char>| !target.contains(x);
    let m = source.filter(p);
    law_sorted_set(m);
    assert forall|n: Seq<char>| #[trigger] sorted_set(m).contains(n) <==> source.contains(n)
        && !target.contains(n) by {
        broadcast use vstd::seq_lib::group_filter_ensures;

        if m.contains(n) {
            let i = m.index_of(n);
            assert(p(m[i]));
            source.lemma_filter_contains_rev(p, n);
        }
        if source.contains(n) && !target.contains(n) {
            let i = source.index_of(n);
            assert(p(source[i]));
            assert(m.contains(source[i]));
        }
    }
}

/// The title of an item, or `(untitled)`.
pub open spec fn heading_of(item: ZoteroItem) -> Seq<char> {
    if item.data.title is Some {
        item.data.title->0@
    } else {
        "(untitled)"@
    }
}

/// Whether lines are those of the preview of a merge: the two items, the changes of
/// fields, what is added to the tags and to the collections, how many children move, and
/// that the source goes to the trash. A part without content has no line of its own, but
/// for the fields.
pub open spec fn previews(
    lines: Seq<Seq<char>>,
    target: ZoteroItem,
    source: ZoteroItem,
    changed: Seq<Seq<char>>,
    tags: Seq<Seq<char>>,
    collections: Seq<Seq<char>>,
    children: nat,
) -> bool {
    lines == seq![
        "target: "@ + target.key@ + " -- "@ + heading_of(target),
        "source: "@ + source.key@ + " -- "@ + heading_of(source),
        Seq::empty(),
    ] + (if changed.len() == 0 {
        seq!["fields: no changes"@]
    } else {
        seq!["fields:"@] + changed
    }) + (if tags.len() == 0 {
        Seq::empty()
    } else {
        seq!["tags added: "@ + joined(tags, ", "@)]
    }) + (if collections.len() == 0 {
        Seq::empty()
    } else {
        seq!["collections added: "@ + joined(collections, ", "@)]
    }) + (if children == 0 {
        Seq::empty()
    } else {
        seq!["children to re-parent: "@ + decimal(children)]
    }) + seq![Seq::empty(), "source "@ + source.key@ + " will be moved to trash"@]
}

/// Whether a text is the preview of a merge.
pub open spec fn is_preview(
    text: Seq<char>,
    target: ZoteroItem,
    source: ZoteroItem,
    merged: JsonView,
    children: nat,
) -> bool {
    exists|lines: Seq<Seq<char>>, tags: Seq<Seq<char>>, collections: Seq<Seq<char>>|
        {
            &&& #[trigger] previews(
                lines,
                target,
                source,
                change_lines(item_fields(target.data), merged->Object_0),
                tags,
                collections,
                children,
            )
            &&& are_new(tags, tag_names(target.data.tags@), tag_names(source.data.tags@))
            &&& are_new(collections, texts(target.data.collections@), texts(
                source.data.collections@,
            ))
            &&& text == joined(lines, "\n"@)
        }
}

pub proof fn lemma_preview(
    target: ZoteroItem,
    source: ZoteroItem,
    merged: JsonView,
    children: nat,
)
    ensures
        is_preview(
            report(target, source, merged->Object_0, children),
            target,
            source,
            merged,
            children,
        ),
{
    let a = tag_names(target.data.tags@);
    let b = tag_names(source.data.tags@);
    let c = texts(target.data.collections@);
    let d = texts(source.data.collections@);
    lemma_new(a, b);
    lemma_new(c, d);
    let tags = sorted_set(missing(b, a));
    let collections = sorted_set(missing(d, c));
    let lines = report_lines(target, source, merged->Object_0, children);
    assert(previews(
        lines,
        target,
        source,
        change_lines(item_fields(target.data), merged->Object_0),
        tags,
        collections,
        children,
    ));
}

/// The text that a preview has.
pub proof fn law_preview(
    target: &ZoteroItem,
    source: &ZoteroItem,
    merged: &Json,
    children: &[Json],
    r: String,
)
    requires
        call_ensures(build_dry_run_report, (target, source, merged, children), r),
    ensures
        is_preview(r@, *target, *source, merged@, children@.len()),
{
    lemma_preview(*target, *source, merged@, children@.len());
}

/// Whether every value of a change of the target can be shown, the one before it and the
/// one after it.
pub open spec fn shows_all_changes(target: ZoteroItem, merged: JsonView) -> bool {
    forall|i: int|
        #![trigger merged->Object_0[i]]
        0 <= i < merged->Object_0.len() && is_reported(
            item_fields(target.data),
            merged->Object_0[i].0,
            merged->Object_0[i].1,
        ) ==> {
            let old = lookup(item_fields(target.data), merged->Object_0[i].0);
            &&& showable(merged->Object_0[i].1)
            &&& old is Some ==> showable(old->0)
        }
}

/// The changes that can be shown are those of which every value can be shown.
pub proof fn lemma_showable_changes(target: ZoteroItem, merged: JsonView)
    ensures
        changes_showable(item_fields(target.data), merged->Object_0) <==> shows_all_changes(
            target,
            merged,
        ),
{
    let m = merged->Object_0;
    let t = item_fields(target.data);
    assert forall|i: int| 0 <= i < m.len() implies (changes(t, #[trigger] m[i]) <==> is_reported(
        t,
        m[i].0,
        m[i].1,
    )) by {}
    if changes_showable(t, m) {
        assert forall|i: int|
            #![trigger merged->Object_0[i]]
            0 <= i < m.len() && is_reported(t, m[i].0, m[i].1) implies {
            let old = lookup(t, m[i].0);
            &&& showable(m[i].1)
            &&& old is Some ==> showable(old->0)
        } by {
            assert(change_showable(t, m[i]));
        }
    }
    if shows_all_changes(target, merged) {
        assert forall|i: int| 0 <= i < m.len() implies change_showable(t, #[trigger] m[i]) by {
            assert(changes(t, m[i]) <==> is_reported(t, m[i].0, m[i].1));
        }
    }
}

/// A preview is made exactly where the merged data is an object and every value of a
/// change can be shown.
pub proof fn law_try_preview(
    target: &ZoteroItem,
    source: &ZoteroItem,
    merged: &Json,
    children: &[Json],
    r: Option<String>,
)
    requires
        call_ensures(try_dry_run_report, (target, source, merged, children), r),
    ensures
        r is Some <==> merged@ is Object && shows_all_changes(*target, merged@),
        r is Some ==> is_preview(r->0@, *target, *source, merged@, children@.len()),
{
    lemma_preview(*target, *source, merged@, children@.len());
    lemma_showable_changes(*target, merged@);
}

} // verus!
