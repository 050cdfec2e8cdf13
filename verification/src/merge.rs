//! Merging two items: the data of the surviving item and a preview of the merge.

use crate::json::{
    compact_text, keys, lemma_lookup, lemma_lookup_entry, lemma_lookup_last, lemma_object_unique,
    lemma_put, lemma_put_all, lemma_same_reflexive, lookup, put, same, text_list, Entries, Json,
    JsonObject, JsonView,
};
use crate::text::{
    add_text, before, can_shorten, check_shorten, decimal, decimal_text, has_text, increasing,
    join, joined, lemma_before_irreflexive, lemma_increasing_unique, lemma_sorted_set, same_text,
    shorten, shortened, sorted_set, texts,
};
use crate::types::{
    item_fields, item_pairs, lemma_item_lists, lemma_tag_list_injective,
    lemma_text_list_injective, names_of_tags, tag_list, tag_names, tags_to_json, ZoteroItem,
};
use vstd::prelude::*;
use vstd::string::*;

verus! {

/// The fields that make up the identity of an item, are managed by Zotero or are
/// merged by a rule of their own.
pub open spec fn structural(k: Seq<char>) -> bool {
    ||| k == "key"@
    ||| k == "version"@
    ||| k == "itemType"@
    ||| k == "dateAdded"@
    ||| k == "dateModified"@
    ||| k == "tags"@
    ||| k == "collections"@
    ||| k == "creators"@
}

fn is_structural(k: &str) -> (r: bool)
    ensures
        r == structural(k@),
{
    same_text(k, "key") || same_text(k, "version") || same_text(k, "itemType") || same_text(
        k,
        "dateAdded",
    ) || same_text(k, "dateModified") || same_text(k, "tags") || same_text(k, "collections")
        || same_text(k, "creators")
}

/// Whether a field has no content: it is missing, null, an empty text or an empty
/// array.
pub open spec fn blank(v: Option<JsonView>) -> bool {
    match v {
        None => true,
        Some(JsonView::Null) => true,
        Some(JsonView::Text(t)) => t.len() == 0,
        Some(JsonView::Array(a)) => a.len() == 0,
        _ => false,
    }
}

/// The value of an optional reference.
pub open spec fn seen(v: Option<&Json>) -> Option<JsonView> {
    match v {
        Some(j) => Some(j@),
        None => None,
    }
}

/// Tests whether a field has no content.
pub fn is_empty(val: Option<&Json>) -> (r: bool)
    ensures
        r == blank(seen(val)),
{
    match val {
        None => true,
        Some(v) => match v {
            Json::Null => true,
            Json::Text(t) => t.as_str().is_empty(),
            Json::Array(a) => a.len() == 0,
            _ => false,
        },
    }
}

/// What stands under a field after the empty fields of the target were filled
/// from the source. Structural fields keep what the target has.
pub open spec fn filled(target: Entries, source: Entries, k: Seq<char>) -> Option<JsonView> {
    if !structural(k) && blank(lookup(target, k)) && !blank(lookup(source, k)) {
        lookup(source, k)
    } else {
        lookup(target, k)
    }
}

/// What stands under a field of the merged data: the union of the tags and of
/// the collections, sorted and each once, else the filled field.
pub open spec fn merged_field(
    target: ZoteroItem,
    source: ZoteroItem,
    k: Seq<char>,
) -> Option<JsonView> {
    if k == "collections"@ {
        Some(
            text_list(
                sorted_set(texts(target.data.collections@) + texts(source.data.collections@)),
            ),
        )
    } else if k == "tags"@ {
        Some(
            tag_list(sorted_set(tag_names(target.data.tags@) + tag_names(source.data.tags@))),
        )
    } else {
        filled(item_fields(target.data), item_fields(source.data), k)
    }
}

/// Whether a value is the merged data of two items.
pub open spec fn is_merged(merged: JsonView, target: ZoteroItem, source: ZoteroItem) -> bool {
    &&& merged is Object
    &&& increasing(keys(merged->Object_0))
    &&& forall|k: Seq<char>| #[trigger]
        lookup(merged->Object_0, k) == merged_field(target, source, k)
}

/// The merged data of two items.
pub open spec fn reconciled(target: ZoteroItem, source: ZoteroItem) -> JsonView {
    choose|m: JsonView| is_merged(m, target, source)
}

/// Two items have only one merged data.
pub proof fn lemma_merged_unique(a: JsonView, b: JsonView, target: ZoteroItem, source: ZoteroItem)
    requires
        is_merged(a, target, source),
        is_merged(b, target, source),
    ensures
        a == b,
{
    let x = a->Object_0;
    let y = b->Object_0;
    assert forall|k: Seq<char>| #[trigger] lookup(x, k) == lookup(y, k) by {
        assert(lookup(x, k) == merged_field(target, source, k));
        assert(lookup(y, k) == merged_field(target, source, k));
    }
    lemma_object_unique(x, y);
}

/// The target filled from the entries of the source, one after the other.
spec fn fill(target: Entries, source: Entries) -> Entries
    decreases source.len(),
{
    if source.len() == 0 {
        target
    } else {
        let front = fill(target, source.drop_last());
        let e = source.last();
        if !structural(e.0) && blank(lookup(target, e.0)) && !blank(Some(e.1)) {
            put(front, e.0, e.1)
        } else {
            front
        }
    }
}

proof fn lemma_fill(target: Entries, source: Entries)
    requires
        increasing(keys(target)),
        increasing(keys(source)),
    ensures
        increasing(keys(fill(target, source))),
        forall|k: Seq<char>| #[trigger]
            lookup(fill(target, source), k) == filled(target, source, k),
    decreases source.len(),
{
    if source.len() > 0 {
        let front = source.drop_last();
        let e = source.last();
        lemma_lookup_last(source, e.0);
        lemma_fill(target, front);
        let f = fill(target, front);
        lemma_put(f, e.0, e.1);
        assert forall|k: Seq<char>| #[trigger]
            lookup(fill(target, source), k) == filled(target, source, k) by {
            lemma_lookup_last(source, k);
            assert(lookup(f, k) == filled(target, front, k));
            assert(lookup(put(f, e.0, e.1), k) == (if k == e.0 {
                Some(e.1)
            } else {
                lookup(f, k)
            }));
        }
    }
}

/// Any two items have merged data.
pub proof fn lemma_reconciled(target: ZoteroItem, source: ZoteroItem)
    ensures
        is_merged(reconciled(target, source), target, source),
{
    let t = item_fields(target.data);
    let s = item_fields(source.data);
    lemma_put_all(Seq::empty(), item_pairs(target.data));
    lemma_put_all(Seq::empty(), item_pairs(source.data));
    lemma_fill(t, s);
    let f = fill(t, s);
    let tags = tag_list(
        sorted_set(tag_names(target.data.tags@) + tag_names(source.data.tags@)),
    );
    let collections = text_list(
        sorted_set(texts(target.data.collections@) + texts(source.data.collections@)),
    );
    let g = put(f, "tags"@, tags);
    let h = put(g, "collections"@, collections);
    lemma_put(f, "tags"@, tags);
    lemma_put(g, "collections"@, collections);
    assert forall|k: Seq<char>| #[trigger] lookup(h, k) == merged_field(target, source, k) by {
        assert(lookup(g, k) == (if k == "tags"@ {
            Some(tags)
        } else {
            lookup(f, k)
        }));
        assert(lookup(f, k) == filled(t, s, k));
    }
    assert(is_merged(JsonView::Object(h), target, source));
}

/// A merge keeps the identity of the target, what Zotero manages and the creators.
pub proof fn lemma_merge_keeps_structure(target: ZoteroItem, source: ZoteroItem, k: Seq<char>)
    requires
        structural(k),
        k != "tags"@,
        k != "collections"@,
    ensures
        lookup(reconciled(target, source)->Object_0, k) == lookup(item_fields(target.data), k),
{
    lemma_reconciled(target, source);
    assert(lookup(reconciled(target, source)->Object_0, k) == merged_field(target, source, k));
}

/// A merge keeps every field of the target that has content, but for the tags and
/// the collections, which grow.
pub proof fn lemma_merge_keeps_content(target: ZoteroItem, source: ZoteroItem, k: Seq<char>)
    requires
        !blank(lookup(item_fields(target.data), k)),
        k != "tags"@,
        k != "collections"@,
    ensures
        lookup(reconciled(target, source)->Object_0, k) == lookup(item_fields(target.data), k),
{
    lemma_reconciled(target, source);
    assert(lookup(reconciled(target, source)->Object_0, k) == merged_field(target, source, k));
}

/// A merge fills every empty field of the target that the source can fill, unless it
/// is structural.
pub proof fn lemma_merge_fills_empty(target: ZoteroItem, source: ZoteroItem, k: Seq<char>)
    requires
        !structural(k),
        blank(lookup(item_fields(target.data), k)),
        !blank(lookup(item_fields(source.data), k)),
    ensures
        lookup(reconciled(target, source)->Object_0, k) == lookup(item_fields(source.data), k),
{
    lemma_reconciled(target, source);
    assert(lookup(reconciled(target, source)->Object_0, k) == merged_field(target, source, k));
}

/// The merged tags are those of either item, sorted by name and each once.
pub proof fn lemma_merge_unites_tags(target: ZoteroItem, source: ZoteroItem)
    ensures
        exists|names: Seq<Seq<char>>|
            {
                &&& lookup(reconciled(target, source)->Object_0, "tags"@) == Some(
                    #[trigger] tag_list(names),
                )
                &&& increasing(names)
                &&& forall|n: Seq<char>| #[trigger]
                    names.contains(n) <==> tag_names(target.data.tags@).contains(n) || tag_names(
                        source.data.tags@,
                    ).contains(n)
            },
{
    lemma_reconciled(target, source);
    let a = tag_names(target.data.tags@);
    let b = tag_names(source.data.tags@);
    let names = sorted_set(a + b);
    reveal_strlit("tags");
    reveal_strlit("collections");
    assert("tags"@ != "collections"@) by {
        assert("tags"@.len() != "collections"@.len());
    }
    assert(lookup(reconciled(target, source)->Object_0, "tags"@) == merged_field(
        target,
        source,
        "tags"@,
    ));
    lemma_union_members(a, b);
    assert(lookup(reconciled(target, source)->Object_0, "tags"@) == Some(tag_list(names)));
}

/// The merged collections are those of either item, sorted and each once.
pub proof fn lemma_merge_unites_collections(target: ZoteroItem, source: ZoteroItem)
    ensures
        exists|names: Seq<Seq<char>>|
            {
                &&& lookup(reconciled(target, source)->Object_0, "collections"@) == Some(
                    #[trigger] text_list(names),
                )
                &&& increasing(names)
                &&& forall|n: Seq<char>| #[trigger]
                    names.contains(n) <==> texts(target.data.collections@).contains(n) || texts(
                        source.data.collections@,
                    ).contains(n)
            },
{
    lemma_reconciled(target, source);
    let a = texts(target.data.collections@);
    let b = texts(source.data.collections@);
    let names = sorted_set(a + b);
    assert(lookup(reconciled(target, source)->Object_0, "collections"@) == merged_field(
        target,
        source,
        "collections"@,
    ));
    lemma_union_members(a, b);
    assert(lookup(reconciled(target, source)->Object_0, "collections"@) == Some(
        text_list(names),
    ));
}

proof fn lemma_union_members(a: Seq<Seq<char>>, b: Seq<Seq<char>>)
    ensures
        increasing(sorted_set(a + b)),
        forall|n: Seq<char>| #[trigger]
            sorted_set(a + b).contains(n) <==> a.contains(n) || b.contains(n),
{
    lemma_sorted_set(a + b);
    assert forall|n: Seq<char>| #[trigger] sorted_set(a + b).contains(n) <==> a.contains(n)
        || b.contains(n) by {
        if a.contains(n) {
            assert((a + b)[a.index_of(n)] == n);
        }
        if b.contains(n) {
            assert((a + b)[a.len() + b.index_of(n)] == n);
        }
        if (a + b).contains(n) {
            let i = (a + b).index_of(n);
            if i < a.len() {
                assert(a[i] == n);
            } else {
                assert(b[i - a.len()] == n);
            }
        }
    }
}

/// The union of a union with one of its parts is the union.
proof fn lemma_union_again(a: Seq<Seq<char>>, b: Seq<Seq<char>>)
    ensures
        sorted_set(sorted_set(a + b) + b) == sorted_set(a + b),
{
    let u = sorted_set(a + b);
    lemma_union_members(a, b);
    lemma_union_members(u, b);
    assert forall|n: Seq<char>| #[trigger] sorted_set(u + b).contains(n) <==> u.contains(n) by {
        assert(u.contains(n) <==> a.contains(n) || b.contains(n));
    }
    lemma_increasing_unique(sorted_set(u + b), u);
}

/// Merging the same source a second time changes nothing: where `again` is the target as
/// it is read back after a merge, the merged data of `again` and the source is what was
/// written.
pub proof fn lemma_merge_is_idempotent(target: ZoteroItem, source: ZoteroItem, again: ZoteroItem)
    requires
        increasing(keys(again.data.extra@)),
        lookup(again.data.extra@, "tags"@) is None,
        lookup(again.data.extra@, "collections"@) is None,
        JsonView::Object(item_fields(again.data)) == reconciled(target, source),
    ensures
        reconciled(again, source) == reconciled(target, source),
{
    let merged = reconciled(target, source);
    let m = merged->Object_0;
    let t = item_fields(target.data);
    let s = item_fields(source.data);
    lemma_reconciled(target, source);
    lemma_reconciled(again, source);
    lemma_item_lists(again.data);
    reveal_strlit("tags");
    reveal_strlit("collections");
    assert("tags"@.len() != "collections"@.len());
    let tags = sorted_set(tag_names(target.data.tags@) + tag_names(source.data.tags@));
    assert(lookup(m, "tags"@) == merged_field(target, source, "tags"@));
    lemma_tag_list_injective(tag_names(again.data.tags@), tags);
    lemma_union_again(tag_names(target.data.tags@), tag_names(source.data.tags@));
    let cols = sorted_set(texts(target.data.collections@) + texts(source.data.collections@));
    assert(lookup(m, "collections"@) == merged_field(target, source, "collections"@));
    lemma_text_list_injective(texts(again.data.collections@), cols);
    lemma_union_again(texts(target.data.collections@), texts(source.data.collections@));
    assert forall|k: Seq<char>| #[trigger] lookup(m, k) == merged_field(again, source, k) by {
        assert(lookup(m, k) == merged_field(target, source, k));
        if k != "tags"@ && k != "collections"@ {
            assert(lookup(m, k) == filled(t, s, k));
        }
    }
    assert(is_merged(merged, again, source));
    lemma_merged_unique(reconciled(again, source), merged, again, source);
}

/// The sorted union of two lists.
fn union(a: &Vec<String>, b: &Vec<String>) -> (r: Vec<String>)
    ensures
        texts(r@) == sorted_set(texts(a@) + texts(b@)),
{
    let mut out: Vec<String> = Vec::new();
    let ghost all = texts(a@) + texts(b@);
    assert(texts(out@) =~= Seq::empty());
    assert(all.take(0) =~= Seq::empty());
    let mut i: usize = 0;
    while i < a.len()
        invariant
            i <= a.len(),
            all == texts(a@) + texts(b@),
            texts(out@) == sorted_set(all.take(i as int)),
        decreases a.len() - i,
    {
        assert(all.take(i + 1).drop_last() =~= all.take(i as int));
        assert(all.take(i + 1).last() == a@[i as int]@);
        add_text(&mut out, a[i].as_str());
        i += 1;
    }
    let mut j: usize = 0;
    while j < b.len()
        invariant
            j <= b.len(),
            all == texts(a@) + texts(b@),
            texts(out@) == sorted_set(all.take(a.len() + j)),
        decreases b.len() - j,
    {
        assert(all.take(a.len() + j + 1).drop_last() =~= all.take(a.len() + j));
        assert(all.take(a.len() + j + 1).last() == b@[j as int]@);
        add_text(&mut out, b[j].as_str());
        j += 1;
    }
    assert(all.take(a.len() + b.len()) =~= all);
    out
}

/// The data with which the target is to be patched when the source is merged into
/// it. Fields keep the value of the target unless it is empty; tags and
/// collections are united; creators are those of the target.
pub fn reconcile_items(target: &ZoteroItem, source: &ZoteroItem) -> (r: Json)
    ensures
        is_merged(r@, *target, *source),
        r@ == reconciled(*target, *source),
{
    let ghost t = item_fields(target.data);
    let mut merged = target.data.to_object();
    let source_fields = source.data.to_object();
    let ghost s = source_fields@;
    proof {
        lemma_put_all(Seq::empty(), item_pairs(target.data));
        lemma_put_all(Seq::empty(), item_pairs(source.data));
        assert(keys(s).take(0) =~= Seq::empty());
    }
    let n = source_fields.len();
    let mut i: usize = 0;
    while i < n
        invariant
            i <= n,
            n == s.len(),
            s == source_fields@,
            increasing(keys(s)),
            increasing(keys(merged@)),
            forall|k: Seq<char>| #[trigger]
                lookup(merged@, k) == (if keys(s).take(i as int).contains(k) {
                    filled(t, s, k)
                } else {
                    lookup(t, k)
                }),
        decreases n - i,
    {
        let key = source_fields.key_at(i);
        let value = source_fields.value_at(i);
        let ghost k0 = s[i as int].0;
        let ghost before_step = merged@;
        proof {
            lemma_lookup_entry(s, i as int);
            assert(!keys(s).take(i as int).contains(k0)) by {
                if keys(s).take(i as int).contains(k0) {
                    let j = keys(s).take(i as int).index_of(k0);
                    assert(keys(s)[j] == k0 && keys(s)[i as int] == k0);
                    assert(before(keys(s)[j], keys(s)[i as int]));
                    lemma_before_irreflexive(k0);
                }
            }
            assert(lookup(merged@, k0) == lookup(t, k0));
        }
        if !is_structural(key) && is_empty(merged.get(key)) && !is_empty(Some(value)) {
            let copy = value.clone();
            proof {
                lemma_put(merged@, k0, copy@);
            }
            merged.insert(key.to_owned(), copy);
        }
        proof {
            assert forall|k: Seq<char>| #[trigger]
                lookup(merged@, k) == (if keys(s).take(i + 1).contains(k) {
                    filled(t, s, k)
                } else {
                    lookup(t, k)
                }) by {
                assert(keys(s).take(i + 1) =~= keys(s).take(i as int).push(k0));
                assert(lookup(before_step, k) == (if keys(s).take(i as int).contains(k) {
                    filled(t, s, k)
                } else {
                    lookup(t, k)
                }));
                if k == k0 {
                    assert(keys(s).take(i + 1)[i as int] == k);
                } else if keys(s).take(i as int).contains(k) {
                    assert(keys(s).take(i + 1)[keys(s).take(i as int).index_of(k)] == k);
                } else if keys(s).take(i + 1).contains(k) {
                    let j = keys(s).take(i + 1).index_of(k);
                    assert(keys(s).take(i as int)[j] == k);
                }
            }
        }
        i += 1;
    }
    proof {
        assert(keys(s).take(n as int) =~= keys(s));
        assert forall|k: Seq<char>| #[trigger] lookup(merged@, k) == filled(t, s, k) by {
            lemma_lookup(s, k);
        }
    }
    let ghost fields = merged@;
    let tags = union(&names_of_tags(&target.data.tags), &names_of_tags(&source.data.tags));
    let tags = tags_to_json(&tags);
    proof {
        lemma_put(merged@, "tags"@, tags@);
    }
    merged.insert("tags".to_owned(), tags);
    let ghost with_tags = merged@;
    let collections = Json::text_array(
        &union(&target.data.collections, &source.data.collections),
    );
    proof {
        lemma_put(merged@, "collections"@, collections@);
    }
    merged.insert("collections".to_owned(), collections);
    proof {
        assert forall|k: Seq<char>| #[trigger]
            lookup(merged@, k) == merged_field(*target, *source, k) by {
            assert(lookup(with_tags, k) == (if k == "tags"@ {
                Some(tags@)
            } else {
                lookup(fields, k)
            }));
            assert(lookup(fields, k) == filled(t, s, k));
        }
    }
    let r = Json::Object(merged);
    proof {
        assert(is_merged(r@, *target, *source));
        lemma_merged_unique(r@, reconciled(*target, *source), *target, *source);
    }
    r
}

/// How a value is shown in the preview.
pub open spec fn shown(v: JsonView) -> Seq<char> {
    match v {
        JsonView::Null => "(none)"@,
        JsonView::Text(t) => if t.len() == 0 {
            "(empty)"@
        } else {
            shortened(t)
        },
        JsonView::Array(a) if a.len() == 0 => "(empty)"@,
        _ => shortened(compact_text(v)),
    }
}

/// Whether a value can be shown: where its text is cut, the cut falls between
/// two characters.
pub open spec fn showable(v: JsonView) -> bool {
    match v {
        JsonView::Null => true,
        JsonView::Text(t) => can_shorten(t),
        JsonView::Array(a) if a.len() == 0 => true,
        _ => can_shorten(compact_text(v)),
    }
}

/// Shows a value in the preview.
fn display_val(v: &Json) -> (r: String)
    requires
        showable(v@),
    ensures
        r@ == shown(v@),
{
    match v {
        Json::Null => "(none)".to_owned(),
        Json::Text(t) => if t.as_str().is_empty() {
            "(empty)".to_owned()
        } else {
            shorten(t.as_str())
        },
        Json::Array(a) if a.len() == 0 => "(empty)".to_owned(),
        _ => shorten(v.to_text().as_str()),
    }
}

/// Tests whether a value can be shown.
fn can_display(v: &Json) -> (r: bool)
    ensures
        r == showable(v@),
{
    match v {
        Json::Null => true,
        Json::Text(t) => check_shorten(t.as_str()),
        Json::Array(a) if a.len() == 0 => true,
        _ => check_shorten(v.to_text().as_str()),
    }
}

/// Whether an entry of the merged data changes a field of the target.
pub open spec fn changes(target: Entries, e: (Seq<char>, JsonView)) -> bool {
    &&& !structural(e.0)
    &&& match lookup(target, e.0) {
        Some(old) => !same(old, e.1),
        None => true,
    }
}

/// The line of the preview on one changed field.
pub open spec fn change_line(target: Entries, e: (Seq<char>, JsonView)) -> Seq<char> {
    "  "@ + e.0 + ": "@ + (match lookup(target, e.0) {
        Some(old) => shown(old),
        None => "(none)"@,
    }) + " -> "@ + shown(e.1)
}

/// The lines on the changed fields, in the order of the merged data.
pub open spec fn change_lines(target: Entries, merged: Entries) -> Seq<Seq<char>>
    decreases merged.len(),
{
    if merged.len() == 0 {
        Seq::empty()
    } else {
        let front = change_lines(target, merged.drop_last());
        if changes(target, merged.last()) {
            front.push(change_line(target, merged.last()))
        } else {
            front
        }
    }
}

/// Whether both values of a changed field can be shown.
pub open spec fn change_showable(target: Entries, e: (Seq<char>, JsonView)) -> bool {
    changes(target, e) ==> showable(e.1) && (match lookup(target, e.0) {
        Some(old) => showable(old),
        None => true,
    })
}

/// Whether every changed field can be shown.
pub open spec fn changes_showable(target: Entries, merged: Entries) -> bool {
    forall|i: int| 0 <= i < merged.len() ==> change_showable(target, #[trigger] merged[i])
}

/// The texts of `s` that are not among `t`.
pub open spec fn missing(s: Seq<Seq<char>>, t: Seq<Seq<char>>) -> Seq<Seq<char>> {
    s.filter(|x: Seq<char>| !t.contains(x))
}

/// A line that lists what is added, where anything is.
pub open spec fn added_line(label: Seq<char>, added: Seq<Seq<char>>) -> Seq<Seq<char>> {
    if added.len() == 0 {
        Seq::empty()
    } else {
        seq![label + joined(added, ", "@)]
    }
}

/// The title of an item as the preview shows it.
pub open spec fn title_of(item: ZoteroItem) -> Seq<char> {
    match item.data.title {
        Some(t) => t@,
        None => "(untitled)"@,
    }
}

/// The lines of the preview of a merge.
pub open spec fn report_lines(
    target: ZoteroItem,
    source: ZoteroItem,
    merged: Entries,
    children: nat,
) -> Seq<Seq<char>> {
    let changed = change_lines(item_fields(target.data), merged);
    seq![
        "target: "@ + target.key@ + " -- "@ + title_of(target),
        "source: "@ + source.key@ + " -- "@ + title_of(source),
        Seq::empty(),
    ] + (if changed.len() == 0 {
        seq!["fields: no changes"@]
    } else {
        seq!["fields:"@] + changed
    }) + added_line(
        "tags added: "@,
        sorted_set(missing(tag_names(source.data.tags@), tag_names(target.data.tags@))),
    ) + added_line(
        "collections added: "@,
        sorted_set(missing(texts(source.data.collections@), texts(target.data.collections@))),
    ) + (if children == 0 {
        Seq::empty()
    } else {
        seq!["children to re-parent: "@ + decimal(children)]
    }) + seq![Seq::empty(), "source "@ + source.key@ + " will be moved to trash"@]
}

/// The preview of a merge.
pub open spec fn report(
    target: ZoteroItem,
    source: ZoteroItem,
    merged: Entries,
    children: nat,
) -> Seq<char> {
    joined(report_lines(target, source, merged, children), "\n"@)
}

/// The sorted list of what `s` has and `t` has not.
fn difference(s: &Vec<String>, t: &Vec<String>) -> (r: Vec<String>)
    ensures
        texts(r@) == sorted_set(missing(texts(s@), texts(t@))),
{
    let mut out: Vec<String> = Vec::new();
    let ghost all = texts(s@);
    let ghost p = |x: Seq<char>| !texts(t@).contains(x);
    let mut i: usize = 0;
    proof {
        reveal(Seq::filter);
        assert(all.take(0) =~= Seq::empty());
        assert(texts(out@) =~= Seq::empty());
    }
    while i < s.len()
        invariant
            i <= s.len(),
            all == texts(s@),
            p == (|x: Seq<char>| !texts(t@).contains(x)),
            texts(out@) == sorted_set(all.take(i as int).filter(p)),
        decreases s.len() - i,
    {
        let ghost front = all.take(i as int).filter(p);
        proof {
            reveal(Seq::filter);
            assert(all.take(i + 1).drop_last() =~= all.take(i as int));
            assert(all.take(i + 1).last() == s@[i as int]@);
        }
        if !has_text(t.as_slice(), s[i].as_str()) {
            assert(all.take(i + 1).filter(p) == front.push(s@[i as int]@));
            assert(front.push(s@[i as int]@).drop_last() =~= front);
            add_text(&mut out, s[i].as_str());
        }
        i += 1;
    }
    assert(all.take(all.len() as int) =~= all);
    out
}

fn heading(label: &str, item: &ZoteroItem) -> (r: String)
    ensures
        r@ == label@ + item.key@ + " -- "@ + title_of(*item),
{
    let mut line = label.to_owned();
    line.append(item.key.as_str());
    line.append(" -- ");
    match &item.data.title {
        Some(t) => line.append(t.as_str()),
        None => line.append("(untitled)"),
    }
    line
}

/// Whether an entry changes a field of the target.
fn is_change(fields: &JsonObject, key: &str, value: &Json) -> (r: bool)
    ensures
        r == changes(fields@, (key@, value@)),
{
    if is_structural(key) {
        return false;
    }
    match fields.get(key) {
        Some(old) => !old.equals(value),
        None => true,
    }
}

/// The lines on the changed fields.
fn write_changes(fields: &JsonObject, merged: &JsonObject) -> (r: Vec<String>)
    requires
        changes_showable(fields@, merged@),
    ensures
        texts(r@) == change_lines(fields@, merged@),
{
    let mut out: Vec<String> = Vec::new();
    let n = merged.len();
    let mut i: usize = 0;
    assert(texts(out@) =~= Seq::empty());
    assert(merged@.take(0) =~= Seq::empty());
    while i < n
        invariant
            i <= n,
            n == merged@.len(),
            changes_showable(fields@, merged@),
            texts(out@) == change_lines(fields@, merged@.take(i as int)),
        decreases n - i,
    {
        let key = merged.key_at(i);
        let value = merged.value_at(i);
        let ghost e = merged@[i as int];
        let ghost earlier = texts(out@);
        proof {
            assert(merged@.take(i + 1).drop_last() =~= merged@.take(i as int));
            assert(merged@.take(i + 1).last() == e);
            assert(change_showable(fields@, e));
        }
        if is_change(fields, key, value) {
            let mut line = "  ".to_owned();
            line.append(key);
            line.append(": ");
            match fields.get(key) {
                Some(old) => line.append(display_val(old).as_str()),
                None => line.append("(none)"),
            }
            line.append(" -> ");
            line.append(display_val(value).as_str());
            assert(line@ == change_line(fields@, e));
            out.push(line);
            assert(texts(out@) =~= earlier.push(change_line(fields@, e)));
        }
        i += 1;
    }
    assert(merged@.take(n as int) =~= merged@);
    out
}

/// A preview of the merge for a reader: what changes on the target, what happens
/// to the children of the source and to the source itself.
pub fn build_dry_run_report(
    target: &ZoteroItem,
    source: &ZoteroItem,
    merged_data: &Json,
    source_children: &[Json],
) -> (r: String)
    requires
        merged_data@ is Object,
        changes_showable(item_fields(target.data), merged_data@->Object_0),
    ensures
        r@ == report(*target, *source, merged_data@->Object_0, source_children@.len()),
{
    let fields = target.data.to_object();
    let changed = match merged_data {
        Json::Object(o) => write_changes(&fields, o),
        _ => Vec::new(),
    };
    let ghost changed_lines = texts(changed@);
    let mut lines: Vec<String> = Vec::new();
    lines.push(heading("target: ", target));
    lines.push(heading("source: ", source));
    lines.push(String::new());
    let ghost head = texts(lines@);
    assert(head =~= seq![
        "target: "@ + target.key@ + " -- "@ + title_of(*target),
        "source: "@ + source.key@ + " -- "@ + title_of(*source),
        Seq::empty(),
    ]);
    let ghost fields_part = if changed_lines.len() == 0 {
        seq!["fields: no changes"@]
    } else {
        seq!["fields:"@] + changed_lines
    };
    if changed.len() == 0 {
        lines.push("fields: no changes".to_owned());
    } else {
        lines.push("fields:".to_owned());
        extend(&mut lines, changed);
    }
    assert(texts(lines@) =~= head + fields_part);
    let tags = difference(&names_of_tags(&source.data.tags), &names_of_tags(&target.data.tags));
    push_added(&mut lines, "tags added: ", &tags);
    let collections = difference(&source.data.collections, &target.data.collections);
    push_added(&mut lines, "collections added: ", &collections);
    let ghost body = texts(lines@);
    let ghost children_part = if source_children@.len() == 0 {
        Seq::empty()
    } else {
        seq!["children to re-parent: "@ + decimal(source_children@.len())]
    };
    if source_children.len() > 0 {
        let mut line = "children to re-parent: ".to_owned();
        line.append(decimal_text(source_children.len() as u64).as_str());
        lines.push(line);
    }
    assert(texts(lines@) =~= body + children_part);
    let ghost most = texts(lines@);
    lines.push(String::new());
    let mut line = "source ".to_owned();
    line.append(source.key.as_str());
    line.append(" will be moved to trash");
    lines.push(line);
    assert(texts(lines@) =~= most + seq![
        Seq::empty(),
        "source "@ + source.key@ + " will be moved to trash"@,
    ]);
    join(&lines, "\n")
}

fn extend(lines: &mut Vec<String>, more: Vec<String>)
    ensures
        texts(final(lines)@) == texts(old(lines)@) + texts(more@),
{
    let mut more = more;
    let ghost all = more@;
    let ghost first = lines@;
    lines.append(&mut more);
    assert(texts(lines@) =~= texts(first) + texts(all));
}

fn push_added(lines: &mut Vec<String>, label: &str, added: &Vec<String>)
    ensures
        texts(final(lines)@) == texts(old(lines)@) + added_line(label@, texts(added@)),
{
    let ghost first = texts(lines@);
    if added.len() > 0 {
        let mut line = label.to_owned();
        line.append(join(added, ", ").as_str());
        lines.push(line);
        assert(texts(lines@) =~= first + added_line(label@, texts(added@)));
    } else {
        assert(texts(lines@) =~= first + added_line(label@, texts(added@)));
    }
}

/// The preview of a merge, or nothing where a value cannot be shown or the merged
/// data is no object.
pub fn try_dry_run_report(
    target: &ZoteroItem,
    source: &ZoteroItem,
    merged_data: &Json,
    source_children: &[Json],
) -> (r: Option<String>)
    ensures
        match r {
            Some(text) => {
                &&& merged_data@ is Object
                &&& changes_showable(item_fields(target.data), merged_data@->Object_0)
                &&& text@ == report(
                    *target,
                    *source,
                    merged_data@->Object_0,
                    source_children@.len(),
                )
            },
            None => !(merged_data@ is Object) || !changes_showable(
                item_fields(target.data),
                merged_data@->Object_0,
            ),
        },
{
    let fields = target.data.to_object();
    match merged_data {
        Json::Object(o) => {
            let n = o.len();
            let mut i: usize = 0;
            while i < n
                invariant
                    i <= n,
                    n == o@.len(),
                    fields@ == item_fields(target.data),
                    merged_data@ == JsonView::Object(o@),
                    forall|j: int| 0 <= j < i ==> change_showable(fields@, #[trigger] o@[j]),
                decreases n - i,
            {
                let key = o.key_at(i);
                let value = o.value_at(i);
                let ok = !is_change(&fields, key, value) || can_display(value) && match fields.get(
                    key,
                ) {
                    Some(old) => can_display(old),
                    None => true,
                };
                assert(ok == change_showable(fields@, o@[i as int]));
                if !ok {
                    return None;
                }
                i += 1;
            }
            Some(build_dry_run_report(target, source, merged_data, source_children))
        },
        _ => None,
    }
}

/// What the preview of a merge reports as a change is an empty field of the target
/// that gets content from the source.
pub proof fn lemma_reported_changes(target: ZoteroItem, source: ZoteroItem, i: int)
    requires
        0 <= i < reconciled(target, source)->Object_0.len(),
        changes(item_fields(target.data), reconciled(target, source)->Object_0[i]),
    ensures
        ({
            let (k, v) = reconciled(target, source)->Object_0[i];
            &&& blank(lookup(item_fields(target.data), k))
            &&& !blank(Some(v))
            &&& lookup(item_fields(source.data), k) == Some(v)
        }),
{
    lemma_reconciled(target, source);
    let m = reconciled(target, source)->Object_0;
    let (k, v) = m[i];
    lemma_lookup_entry(m, i);
    assert(lookup(m, k) == merged_field(target, source, k));
    lemma_same_reflexive(v);
}

} // verus!
