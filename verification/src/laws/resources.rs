//! Laws of the resources.

use crate::client::ZoteroClient;
use crate::error::{ErrorKind, McpError};
use crate::fulltext::{FulltextActionView, FulltextStateView};
use crate::laws::client::{asks_for, lemma_asks_for};
use crate::laws::types::{lemma_shows_item, shows_item};
use crate::resources::{
    addressed, is_segment, json_text, lemma_fulltext_uri, lemma_item_uri, lemma_only_these_uris,
    parse_uri, read, resource_templates, shown, static_resources, Fetched, ParsedUri,
    ParsedUriView, ReadPlan, Resource, ResourceContents, ResourceTemplate, Shown,
};
use crate::text::decimal;
use vstd::prelude::*;
use vstd::string::*;

verus! {

/// Whether a text is not empty and has no `/`.
pub open spec fn is_key(key: Seq<char>) -> bool {
    key.len() > 0 && forall|i: int| 0 <= i < key.len() ==> #[trigger] key[i] != '/'
}

proof fn lemma_key(key: Seq<char>)
    ensures
        is_key(key) <==> is_segment(key),
{
    if is_segment(key) {
        assert forall|i: int| 0 <= i < key.len() implies #[trigger] key[i] != '/' by {
            assert(key.contains(key[i]));
        }
    }
    if is_key(key) && key.contains('/') {
        assert(key[key.index_of('/')] == '/');
    }
}

/// A URI addresses the recent items where it is `zotero://recent`, an item where it is
/// `zotero://item/` and a key, and the full text of an item where `/fulltext` follows the
/// key. A key is not empty and has no `/`. Nothing else is addressed.
pub proof fn law_uri(uri: &str, r: Option<ParsedUri>, key: Seq<char>)
    requires
        call_ensures(parse_uri, (uri,), r),
    ensures
        r is Some && r->0 is Recent <==> uri@ == "zotero://recent"@,
        r is Some && r->0@ == (ParsedUriView::Item { key }) <==> is_key(key) && uri@
            == "zotero://item/"@ + key,
        r is Some && r->0@ == (ParsedUriView::ItemFulltext { key }) <==> is_key(key) && uri@
            == "zotero://item/"@ + key + "/fulltext"@,
{
    lemma_key(key);
    lemma_only_these_uris(uri@);
    if is_segment(key) {
        lemma_item_uri(key);
        lemma_fulltext_uri(key);
    }
    if r is Some && r->0 is Recent {
        assert(addressed(uri@) == Some(ParsedUriView::Recent));
    }
}

proof fn lemma_ten()
    ensures
        decimal(10) == "10"@,
{
    reveal_strlit("1");
    reveal_strlit("0");
    reveal_strlit("10");
    reveal_with_fuel(decimal, 3);
    assert(decimal(1) =~= "1"@);
    assert(decimal(10) =~= "10"@);
}

/// Reading a URI asks for the ten items that were added last, for the item, or begins the
/// search for its full text. A URI that addresses nothing is refused.
pub proof fn law_read(
    client: &ZoteroClient,
    uri: &str,
    r: Result<ReadPlan, McpError>,
    key: Seq<char>,
)
    requires
        call_ensures(read, (client, uri), r),
    ensures
        uri@ == "zotero://recent"@ ==> {
            &&& r is Ok
            &&& r->Ok_0 is Recent
            &&& asks_for(
                client@,
                r->Ok_0->Recent_request,
                "/items?sort=dateAdded&direction=desc&limit=10&v=3"@,
            )
        },
        is_key(key) && uri@ == "zotero://item/"@ + key ==> {
            &&& r is Ok
            &&& r->Ok_0 is Item
            &&& asks_for(client@, r->Ok_0->Item_request, "/items/"@ + key + "?v=3"@)
        },
        is_key(key) && uri@ == "zotero://item/"@ + key + "/fulltext"@ ==> {
            &&& r is Ok
            &&& r->Ok_0 is Fulltext
            &&& r->Ok_0->key@ == key
            &&& r->Ok_0->state@ == (FulltextStateView::AskedItem { key })
            &&& r->Ok_0->action@ == (FulltextActionView::GetFulltext { key })
        },
        r is Err <==> {
            &&& uri@ != "zotero://recent"@
            &&& forall|k: Seq<char>|
                #[trigger] is_key(k) ==> uri@ != "zotero://item/"@ + k && uri@ != "zotero://item/"@
                    + k + "/fulltext"@
        },
        r is Err ==> r->Err_0.kind == ErrorKind::InvalidParams && r->Err_0.message@
            == "unrecognised resource URI: "@ + uri@,
{
    lemma_key(key);
    lemma_only_these_uris(uri@);
    reveal_strlit("&v=");
    reveal_strlit("?v=");
    reveal_strlit("3");
    reveal_strlit("?v=3");
    reveal_strlit("10");
    reveal_strlit("/items?sort=dateAdded&direction=desc&limit=");
    reveal_strlit("/items?sort=dateAdded&direction=desc&limit=10&v=3");
    lemma_ten();
    if is_segment(key) {
        lemma_item_uri(key);
        lemma_fulltext_uri(key);
    }
    let recent = "/items?sort=dateAdded&direction=desc&limit=10&v=3"@;
    assert("/items?sort=dateAdded&direction=desc&limit="@ + "10"@ + "&v="@ + "3"@ =~= recent);
    let path = "/items/"@ + key + "?v=3"@;
    assert("?v="@ + "3"@ =~= "?v=3"@);
    assert("/items/"@ + key + "?v="@ + "3"@ =~= path);
    if uri@ == "zotero://recent"@ {
        lemma_asks_for(client@, r->Ok_0->Recent_request, recent);
    }
    if is_key(key) && uri@ == "zotero://item/"@ + key {
        lemma_asks_for(client@, r->Ok_0->Item_request, path);
    }
    if r is Ok {
        match addressed(uri@) {
            Some(ParsedUriView::Item { key: k }) => {
                lemma_key(k);
                assert(is_key(k));
            },
            Some(ParsedUriView::ItemFulltext { key: k }) => {
                lemma_key(k);
                assert(is_key(k));
            },
            _ => {},
        }
    } else {
        assert forall|k: Seq<char>| #[trigger] is_key(k) implies uri@ != "zotero://item/"@ + k
            && uri@ != "zotero://item/"@ + k + "/fulltext"@ by {
            lemma_key(k);
            lemma_item_uri(k);
            lemma_fulltext_uri(k);
        }
    }
}

/// What a resource shows: items as compact records, one by one and in their order, an item
/// as it is, and a full text as it is.
pub proof fn law_resource_shown(fetched: Fetched, cap: usize, r: Shown)
    requires
        call_ensures(shown, (fetched, cap), r),
    ensures
        fetched is Items ==> {
            &&& r is Compact
            &&& r->records@.len() == fetched->items@.len()
            &&& forall|i: int|
                0 <= i < r->records@.len() ==> shows_item(
                    #[trigger] r->records@[i],
                    fetched->items@[i],
                    cap as nat,
                )
        },
        fetched is Item ==> r is Item && r->Item_item == fetched->Item_item,
        fetched is Text ==> r is Text && r->Text_text == fetched->Text_text,
{
    if fetched is Items {
        assert forall|i: int| 0 <= i < r->records@.len() implies shows_item(
            #[trigger] r->records@[i],
            fetched->items@[i],
            cap as nat,
        ) by {
            lemma_shows_item(r->records@[i], fetched->items@[i], cap as nat);
        }
    }
}

/// The one resource with a fixed URI is the list of the recent items.
pub proof fn law_static_resources(r: Vec<Resource>)
    requires
        call_ensures(static_resources, (), r),
    ensures
        r@.len() == 1,
        r@[0].uri@ == "zotero://recent"@,
        r@[0].name@ == "Recently added"@,
        r@[0].mime_type is Some && r@[0].mime_type->0@ == "application/json"@,
{
    assert(r@[0].mime_type.deep_view() == Some("application/json"@));
}

/// There are two patterns of URIs: that of an item and that of its full text.
pub proof fn law_templates(r: Vec<ResourceTemplate>)
    requires
        call_ensures(resource_templates, (), r),
    ensures
        r@.len() == 2,
        r@[0].uri_template@ == "zotero://item/{key}"@,
        r@[1].uri_template@ == "zotero://item/{key}/fulltext"@,
        r@[0].mime_type is Some && r@[0].mime_type->0@ == "application/json"@,
        r@[1].mime_type is Some && r@[1].mime_type->0@ == "application/json"@,
{
    assert(r@[0].mime_type.deep_view() == Some("application/json"@));
    assert(r@[1].mime_type.deep_view() == Some("application/json"@));
}

/// The contents of a resource carry the URI of the request and the text that was written.
pub proof fn law_contents(uri: &str, body: String, r: ResourceContents)
    requires
        call_ensures(json_text, (uri, body), r),
    ensures
        r.uri@ == uri@,
        r.text@ == body@,
        r.mime_type is Some && r.mime_type->0@ == "application/json"@,
{
    assert(r.mime_type.deep_view() == Some("application/json"@));
}

} // verus!
