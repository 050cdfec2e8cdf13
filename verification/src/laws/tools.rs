//! Laws of the tools.

use crate::client::{ClientError, ClientView, LibraryRef, Request, ZoteroClient};
use crate::error::{ErrorKind, McpError};
use crate::json::{field, pretty_text, text_list, views, Entries, Json, JsonView};
use crate::laws::client::{asks_for, lemma_asks_for};
use crate::laws::json::law_object;
use crate::laws::types::shows_item;
use crate::text::{joined, texts};
use crate::tools::{
    apply_collection_op, apply_tags_op, collection_pairs, export_citation, list_collections,
    map_err, membership_pairs, mutate_collections, ok_json, other_than, pick_client, serialized,
    shape_item, shape_items, with_missing, CitationFormat, CollectionArgs, CollectionChange,
    CollectionOp, ExportCitationArgs, ItemList, ItemRecord, RecentArgs, SearchArgs, SetTagsArgs,
    SetTagsMode,
};
use crate::types::{ZoteroCollection, ZoteroItem};
use vstd::prelude::*;
use vstd::string::*;

verus! {

/// What is left of a list when some texts are taken out of it, in its order.
pub open spec fn left(s: Seq<Seq<char>>, out: Seq<Seq<char>>) -> Seq<Seq<char>>
    decreases s.len(),
{
    if s.len() == 0 {
        Seq::empty()
    } else if out.contains(s.last()) {
        left(s.drop_last(), out)
    } else {
        left(s.drop_last(), out).push(s.last())
    }
}

proof fn lemma_left(s: Seq<Seq<char>>, out: Seq<Seq<char>>, p: spec_fn(Seq<char>) -> bool)
    requires
        forall|t: Seq<char>| #[trigger] p(t) <==> !out.contains(t),
    ensures
        s.filter(p) == left(s, out),
    decreases s.len(),
{
    reveal(Seq::filter);
    if s.len() > 0 {
        lemma_left(s.drop_last(), out, p);
        assert(p(s.last()) <==> !out.contains(s.last()));
    } else {
        assert(s.filter(p) =~= left(s, out));
    }
}

/// Putting an item into a collection adds it behind the others, unless it is there;
/// taking it out leaves the others in their order. It is said that something changed
/// exactly where the collection was not there and now is, or was there and now is not.
pub proof fn law_collection_op(
    current: &[String],
    target: &str,
    op: CollectionOp,
    r: (Vec<String>, bool),
)
    requires
        call_ensures(apply_collection_op, (current, target, op), r),
    ensures
        ({
            let now = texts(current@);
            let next = texts(r.0@);
            &&& op == CollectionOp::Add && !now.contains(target@) ==> r.1 && next == now.push(
                target@,
            )
            &&& op == CollectionOp::Add && now.contains(target@) ==> !r.1 && next == now
            &&& op == CollectionOp::Remove && !now.contains(target@) ==> !r.1 && next == now
            &&& op == CollectionOp::Remove && now.contains(target@) ==> r.1 && next == left(
                now,
                seq![target@],
            )
        }),
{
    let now = texts(current@);
    let one = seq![target@];
    assert forall|t: Seq<char>| #[trigger] other_than(target@)(t) <==> !one.contains(t) by {
        assert(one[0] == target@);
    }
    lemma_left(now, one, other_than(target@));
}

/// One more tag stands behind the others where it is not among them yet.
pub proof fn law_with_missing(current: Seq<Seq<char>>, more: Seq<Seq<char>>, t: Seq<char>)
    ensures
        with_missing(current, Seq::empty()) == current,
        with_missing(current, more).contains(t) ==> with_missing(current, more.push(t))
            == with_missing(current, more),
        !with_missing(current, more).contains(t) ==> with_missing(current, more.push(t))
            == with_missing(current, more).push(t),
{
    assert(more.push(t).drop_last() =~= more);
}

/// Adding tags puts those that are missing behind the others; removing tags leaves the
/// others in their order; replacing them leaves exactly the given ones, each once. It is
/// said that something changed exactly where the list is another one; tags that are
/// replaced by the same ones in another order do not change.
pub proof fn law_tags_op(
    current: &[String],
    tags: &[String],
    mode: SetTagsMode,
    r: (Vec<String>, bool),
)
    requires
        call_ensures(apply_tags_op, (current, tags, mode), r),
    ensures
        ({
            let now = texts(current@);
            let given = texts(tags@);
            let next = texts(r.0@);
            let equal = forall|t: Seq<char>| #[trigger] now.contains(t) <==> given.contains(t);
            &&& mode == SetTagsMode::Add ==> next == with_missing(now, given) && (r.1 <==> next
                != now)
            &&& mode == SetTagsMode::Remove ==> next == left(now, given) && (r.1 <==> next != now)
            &&& mode == SetTagsMode::Replace && equal ==> next == now && !r.1
            &&& mode == SetTagsMode::Replace && !equal ==> next == with_missing(
                Seq::empty(),
                given,
            ) && r.1
        }),
{
    let given = texts(tags@);
    let p = |t: Seq<char>| !given.contains(t);
    assert forall|t: Seq<char>| #[trigger] p(t) <==> !given.contains(t) by {}
    lemma_left(texts(current@), given, p);
}

/// Whether a value is an array of these texts, in their order.
pub open spec fn lists(v: Option<JsonView>, names: Seq<Seq<char>>) -> bool {
    &&& v is Some
    &&& v->0 is Array
    &&& v->0->Array_0.len() == names.len()
    &&& forall|i: int| 0 <= i < names.len() ==> v->0->Array_0[i] == JsonView::Text(
        #[trigger] names[i],
    )
}

/// The change of the collections of an item is written only where there is one: for the
/// version of the item, the new collections and no other field. The answer names the item
/// and its collections after the change.
pub proof fn law_mutate_collections(
    item: &ZoteroItem,
    key: &str,
    id: &str,
    op: CollectionOp,
    r: CollectionChange,
    k: Seq<char>,
)
    requires
        call_ensures(mutate_collections, (item, key, id, op), r),
    ensures
        ({
            let now = texts(item.data.collections@);
            let next = if op == CollectionOp::Add {
                if now.contains(id@) {
                    now
                } else {
                    now.push(id@)
                }
            } else {
                left(now, seq![id@])
            };
            &&& r.patch is Some <==> (op == CollectionOp::Add <==> !now.contains(id@))
            &&& r.patch is Some ==> {
                let (version, data) = r.patch->Some_0;
                &&& version == item.version
                &&& lists(field(data@, "collections"@), next)
                &&& k != "collections"@ ==> field(data@, k) is None
            }
            &&& field(r.result@, "key"@) == Some(JsonView::Text(key@))
            &&& lists(field(r.result@, "collections"@), next)
            &&& k != "key"@ && k != "collections"@ ==> field(r.result@, k) is None
        }),
{
    let now = texts(item.data.collections@);
    let one = seq![id@];
    assert forall|t: Seq<char>| #[trigger] other_than(id@)(t) <==> !one.contains(t) by {
        assert(one[0] == id@);
    }
    lemma_left(now, one, other_than(id@));
    if !now.contains(id@) {
        lemma_left_all(now, one, id@);
    }
    let next = crate::tools::collection_op(now, id@, op).0;
    reveal_strlit("key");
    reveal_strlit("collections");
    assert("key"@.len() != "collections"@.len());
    let pairs = membership_pairs(key@, next);
    assert(pairs[0].0 == "key"@ && pairs[1].0 == "collections"@);
    law_object(pairs, "key"@);
    law_object(pairs, "collections"@);
    law_object(pairs, k);
    let patch: Entries = seq![("collections"@, text_list(next))];
    assert(patch[0].0 == "collections"@);
    law_object(patch, "collections"@);
    law_object(patch, k);
    assert(lists(Some(text_list(next)), next));
}

proof fn lemma_left_all(s: Seq<Seq<char>>, out: Seq<Seq<char>>, t: Seq<char>)
    requires
        out == seq![t],
        !s.contains(t),
    ensures
        left(s, out) == s,
    decreases s.len(),
{
    if s.len() > 0 {
        let front = s.drop_last();
        assert(s[s.len() - 1] == s.last());
        if front.contains(t) {
            assert(s[front.index_of(t)] == t);
        }
        if out.contains(s.last()) {
            assert(out[out.index_of(s.last())] == s.last());
        }
        lemma_left_all(front, out, t);
        assert(front.push(s.last()) =~= s);
    } else {
        assert(left(s, out) =~= s);
    }
}

/// The client of a call speaks to the library that the call names, else to the configured
/// one, with the same address and key.
pub proof fn law_pick_client(
    client: &ZoteroClient,
    library: Option<LibraryRef>,
    r: ZoteroClient,
)
    requires
        call_ensures(pick_client, (client, library), r),
    ensures
        r@.base == client@.base,
        r@.api_key == client@.api_key,
        library is Some ==> r@.user_id == Some(library->0.id) && r@.library_type
            == library->0.library_type@,
        library is None ==> r@ == client@,
{
}

/// The names of the formats of citations.
pub proof fn law_formats(format: &CitationFormat, r: &'static str)
    requires
        call_ensures(CitationFormat::as_str, (format,), r),
    ensures
        *format == CitationFormat::Bibtex ==> r@ == "bibtex"@,
        *format == CitationFormat::Biblatex ==> r@ == "biblatex"@,
        *format == CitationFormat::Csljson ==> r@ == "csljson"@,
        *format == CitationFormat::Ris ==> r@ == "ris"@,
        r@ == format.token(),
{
}

/// An export of citations without a key is refused; any other asks for all keys at once,
/// in the format and from the library of the call.
pub proof fn law_export_citation(
    client: &ZoteroClient,
    args: ExportCitationArgs,
    r: Result<Request, McpError>,
)
    requires
        call_ensures(export_citation, (client, args), r),
    ensures
        args.keys@.len() == 0 ==> r is Err && r->Err_0.kind == ErrorKind::InvalidParams
            && r->Err_0.message@ == "keys must not be empty"@,
        args.keys@.len() > 0 ==> r is Ok,
        args.keys@.len() > 0 && args.library is None ==> asks_for(
            client@,
            r->Ok_0,
            "/items?itemKey="@ + joined(texts(args.keys@), ","@) + "&format="@
                + args.format.token() + "&v=3"@,
        ),
        args.keys@.len() > 0 && args.library is Some ==> asks_for(
            (ClientView {
                base: client@.base,
                api_key: client@.api_key,
                user_id: Some(args.library->0.id),
                library_type: args.library->0.library_type@,
            }),
            r->Ok_0,
            "/items?itemKey="@ + joined(texts(args.keys@), ","@) + "&format="@
                + args.format.token() + "&v=3"@,
        ),
{
    reveal_strlit("&v=");
    reveal_strlit("3");
    reveal_strlit("&v=3");
    assert("&v="@ + "3"@ =~= "&v=3"@);
    if args.keys@.len() > 0 {
        let c = crate::tools::picked(client@, args.library);
        let keys = joined(texts(args.keys@), ","@);
        let format = args.format.token();
        let path = "/items?itemKey="@ + keys + "&format="@ + format + "&v=3"@;
        assert("/items?itemKey="@ + keys + "&format="@ + format + "&v="@ + "3"@ =~= path);
        lemma_asks_for(c, r->Ok_0, path);
    }
}

/// A failure of the client is answered with an internal error that says what the failure
/// says.
pub proof fn law_map_err(e: ClientError, r: McpError)
    requires
        call_ensures(map_err, (e,), r),
    ensures
        r.kind == ErrorKind::InternalError,
        r.message@ == e.text(),
{
}

/// An answer is the text that was written, or an internal error that says why none was.
pub proof fn law_serialized(written: Result<String, String>, r: Result<String, McpError>)
    requires
        call_ensures(serialized, (written,), r),
    ensures
        written is Ok ==> r is Ok && r->Ok_0@ == written->Ok_0@,
        written is Err ==> r is Err && r->Err_0.kind == ErrorKind::InternalError
            && r->Err_0.message@ == "serialize: "@ + written->Err_0@,
{
}

/// A value is answered in pretty JSON.
pub proof fn law_ok_json(v: &Json, r: Result<String, McpError>)
    requires
        call_ensures(ok_json, (v,), r),
    ensures
        pretty_text(v@) is Ok ==> r is Ok && r->Ok_0@ == pretty_text(v@)->Ok_0,
        pretty_text(v@) is Err ==> r is Err && r->Err_0.kind == ErrorKind::InternalError
            && r->Err_0.message@ == "serialize: "@ + pretty_text(v@)->Err_0,
{
}

/// Items are listed as they are, or as compact records one by one where the call asks for
/// these.
pub proof fn law_shape_items(items: Vec<ZoteroItem>, compact: bool, cap: usize, r: ItemList)
    requires
        call_ensures(shape_items, (items, compact, cap), r),
    ensures
        compact <==> r is Compact,
        !compact ==> r->items == items,
        compact ==> r->records@.len() == items@.len(),
        compact ==> forall|i: int|
            0 <= i < items@.len() ==> shows_item(#[trigger] r->records@[i], items@[i], cap as nat),
{
    if compact {
        assert forall|i: int| 0 <= i < items@.len() implies shows_item(
            #[trigger] r->records@[i],
            items@[i],
            cap as nat,
        ) by {
            crate::laws::types::lemma_shows_item(r->records@[i], items@[i], cap as nat);
        }
    }
}

/// An item is shown as it is, or as a compact record where the call asks for one.
pub proof fn law_shape_item(item: ZoteroItem, compact: bool, cap: usize, r: ItemRecord)
    requires
        call_ensures(shape_item, (item, compact, cap), r),
    ensures
        compact <==> r is Compact,
        !compact ==> r->item == item,
        compact ==> shows_item(r->record, item, cap as nat),
{
    if compact {
        crate::laws::types::lemma_shows_item(r->record, item, cap as nat);
    }
}

/// Collections are listed one by one, each with its key, its name and nothing else.
pub proof fn law_list_collections(cols: &[ZoteroCollection], r: Vec<Json>, k: Seq<char>)
    requires
        call_ensures(list_collections, (cols,), r),
    ensures
        r@.len() == cols@.len(),
        forall|i: int|
            #![trigger r@[i]]
            0 <= i < cols@.len() ==> {
                &&& field(r@[i]@, "key"@) == Some(JsonView::Text(cols@[i].key@))
                &&& field(r@[i]@, "name"@) == Some(JsonView::Text(cols@[i].data.name@))
                &&& k != "key"@ && k != "name"@ ==> field(r@[i]@, k) is None
            },
{
    assert(views(r@).len() == r@.len());
    reveal_strlit("key");
    reveal_strlit("name");
    assert("key"@.len() != "name"@.len());
    assert forall|i: int|
        #![trigger r@[i]]
        0 <= i < cols@.len() implies {
        &&& field(r@[i]@, "key"@) == Some(JsonView::Text(cols@[i].key@))
        &&& field(r@[i]@, "name"@) == Some(JsonView::Text(cols@[i].data.name@))
        &&& k != "key"@ && k != "name"@ ==> field(r@[i]@, k) is None
    } by {
        let pairs = collection_pairs(cols@[i]);
        assert(views(r@)[i] == r@[i]@);
        assert(pairs[0].0 == "key"@ && pairs[1].0 == "name"@);
        law_object(pairs, "key"@);
        law_object(pairs, "name"@);
        law_object(pairs, k);
    }
}

/// What holds where a call says nothing else: a search brings at most 25 items, a list of
/// recent items ten; lists are compact, tags are added, and the library is the configured
/// one.
pub proof fn law_defaults(
    query: String,
    search: SearchArgs,
    recent: RecentArgs,
    id: String,
    collection: CollectionArgs,
    key: String,
    tags: Vec<String>,
    set: SetTagsArgs,
)
    requires
        call_ensures(SearchArgs::new, (query,), search),
        call_ensures(RecentArgs::new, (), recent),
        call_ensures(CollectionArgs::new, (id,), collection),
        call_ensures(SetTagsArgs::new, (key, tags), set),
    ensures
        search.query == query && search.limit == 25 && search.compact && search.library is None,
        recent.n == 10 && recent.compact && recent.library is None,
        collection.id == id && collection.compact && collection.library is None,
        set.key == key && set.tags == tags && set.mode == SetTagsMode::Add && set.library is None,
{
}

} // verus!
