//! The resources of the server, addressed by URI:
//!
//! - `zotero://recent`: the items that were added last, as compact records;
//! - `zotero://item/<key>`: an item;
//! - `zotero://item/<key>/fulltext`: the indexed full text of an item.

use crate::client::{ClientView, Request, ZoteroClient};
use crate::error::{ErrorKind, McpError};
use crate::fulltext::{
    fulltext_start, FulltextAction, FulltextActionView, FulltextState, FulltextStateView,
};
use crate::text::{
    after_prefix, before_suffix, has_character, same_text, strip_prefix, strip_suffix,
};
use crate::types::{are_compact, compact_items, CompactItem, FullText, ZoteroItem};
use vstd::prelude::*;
use vstd::string::*;

verus! {

/// The URI of the items that were added last.
pub const RECENT_URI: &'static str = "zotero://recent";

/// What the URIs of items begin with.
pub const ITEM_URI_PREFIX: &'static str = "zotero://item/";

/// How many items `zotero://recent` lists.
pub const RECENT_COUNT: usize = 10;

/// What a URI addresses. Keys are not checked: the API says best what is wrong with
/// a bad one.
#[derive(Debug)]
pub enum ParsedUri {
    Recent,
    Item { key: String },
    ItemFulltext { key: String },
}

/// The mathematical value of a [`ParsedUri`].
pub enum ParsedUriView {
    Recent,
    Item { key: Seq<char> },
    ItemFulltext { key: Seq<char> },
}

impl View for ParsedUri {
    type V = ParsedUriView;

    open spec fn view(&self) -> ParsedUriView {
        match *self {
            ParsedUri::Recent => ParsedUriView::Recent,
            ParsedUri::Item { key } => ParsedUriView::Item { key: key@ },
            ParsedUri::ItemFulltext { key } => ParsedUriView::ItemFulltext { key: key@ },
        }
    }
}

/// Whether a text can be a key in a URI: it is not empty and has no `/`.
pub open spec fn is_segment(key: Seq<char>) -> bool {
    key.len() > 0 && !key.contains('/')
}

/// What a URI addresses, if anything.
pub open spec fn addressed(uri: Seq<char>) -> Option<ParsedUriView> {
    if uri == RECENT_URI@ {
        Some(ParsedUriView::Recent)
    } else {
        match after_prefix(uri, ITEM_URI_PREFIX@) {
            None => None,
            Some(rest) => match before_suffix(rest, "/fulltext"@) {
                Some(key) => if is_segment(key) {
                    Some(ParsedUriView::ItemFulltext { key })
                } else {
                    None
                },
                None => if is_segment(rest) {
                    Some(ParsedUriView::Item { key: rest })
                } else {
                    None
                },
            },
        }
    }
}

/// Reads a URI.
pub fn parse_uri(uri: &str) -> (r: Option<ParsedUri>)
    ensures
        addressed(uri@) == (match r {
            Some(p) => Some(p@),
            None => None,
        }),
{
    if same_text(uri, RECENT_URI) {
        return Some(ParsedUri::Recent);
    }
    let rest = match strip_prefix(uri, ITEM_URI_PREFIX) {
        Some(rest) => rest,
        None => return None,
    };
    match strip_suffix(rest.as_str(), "/fulltext") {
        Some(key) => {
            if key.as_str().is_empty() || has_character(key.as_str(), '/') {
                None
            } else {
                Some(ParsedUri::ItemFulltext { key })
            }
        },
        None => {
            if rest.as_str().is_empty() || has_character(rest.as_str(), '/') {
                None
            } else {
                Some(ParsedUri::Item { key: rest })
            }
        },
    }
}

/// The URI of an item is read as that item.
pub proof fn lemma_item_uri(key: Seq<char>)
    requires
        is_segment(key),
    ensures
        addressed(ITEM_URI_PREFIX@ + key) == Some(ParsedUriView::Item { key }),
{
    reveal_strlit("zotero://recent");
    reveal_strlit("zotero://item/");
    reveal_strlit("/fulltext");
    let uri = ITEM_URI_PREFIX@ + key;
    assert(uri[9] == 'i' && RECENT_URI@[9] == 'r');
    assert(uri.take(14) =~= ITEM_URI_PREFIX@);
    assert(uri.skip(14) =~= key);
    if before_suffix(key, "/fulltext"@) is Some {
        assert(key.skip(key.len() - 9)[0] == '/');
        assert(key[key.len() - 9] == '/');
        assert(key.contains('/'));
    }
}

/// The URI of the full text of an item is read as that full text.
pub proof fn lemma_fulltext_uri(key: Seq<char>)
    requires
        is_segment(key),
    ensures
        addressed(ITEM_URI_PREFIX@ + key + "/fulltext"@) == Some(
            ParsedUriView::ItemFulltext { key },
        ),
{
    reveal_strlit("zotero://recent");
    reveal_strlit("zotero://item/");
    reveal_strlit("/fulltext");
    let uri = ITEM_URI_PREFIX@ + key + "/fulltext"@;
    assert(uri[9] == 'i' && RECENT_URI@[9] == 'r');
    assert(uri.take(14) =~= ITEM_URI_PREFIX@);
    let rest = key + "/fulltext"@;
    assert(uri.skip(14) =~= rest);
    assert(rest.skip(rest.len() - 9) =~= "/fulltext"@);
    assert(rest.take(rest.len() - 9) =~= key);
}

/// Nothing else is read: a URI that addresses something is the one URI of what it
/// addresses, and the key in it can be a key.
pub proof fn lemma_only_these_uris(uri: Seq<char>)
    ensures
        match addressed(uri) {
            Some(ParsedUriView::Recent) => uri == RECENT_URI@,
            Some(ParsedUriView::Item { key }) => is_segment(key) && uri == ITEM_URI_PREFIX@ + key,
            Some(ParsedUriView::ItemFulltext { key }) => is_segment(key) && uri
                == ITEM_URI_PREFIX@ + key + "/fulltext"@,
            None => true,
        },
{
    if let Some(rest) = after_prefix(uri, ITEM_URI_PREFIX@) {
        assert(uri =~= ITEM_URI_PREFIX@ + rest);
        if let Some(key) = before_suffix(rest, "/fulltext"@) {
            assert(rest =~= key + "/fulltext"@);
            assert(ITEM_URI_PREFIX@ + (key + "/fulltext"@) =~= ITEM_URI_PREFIX@ + key
                + "/fulltext"@);
        }
    }
}

/// A resource that the server lists.
#[derive(Debug)]
pub struct Resource {
    pub uri: String,
    pub name: String,
    pub title: Option<String>,
    pub description: Option<String>,
    pub mime_type: Option<String>,
}

/// A pattern of the URIs of resources.
#[derive(Debug)]
pub struct ResourceTemplate {
    pub uri_template: String,
    pub name: String,
    pub description: Option<String>,
    pub mime_type: Option<String>,
}

/// The resources with a fixed URI: the items that were added last.
pub fn static_resources() -> (r: Vec<Resource>)
    ensures
        r@.len() == 1,
        r@[0].uri@ == RECENT_URI@,
        r@[0].name@ == "Recently added"@,
        r@[0].title.deep_view() == Some("Recently added items"@),
        r@[0].description.deep_view() == Some(
            "Compact list of the most recently added items in the configured Zotero library."@,
        ),
        r@[0].mime_type.deep_view() == Some("application/json"@),
{
    let mut out: Vec<Resource> = Vec::new();
    out.push(
        Resource {
            uri: RECENT_URI.to_owned(),
            name: "Recently added".to_owned(),
            title: Some("Recently added items".to_owned()),
            description: Some(
                "Compact list of the most recently added items in the configured Zotero library.".to_owned(),
            ),
            mime_type: Some("application/json".to_owned()),
        },
    );
    out
}

/// The patterns of the URIs of items and of their full texts.
pub fn resource_templates() -> (r: Vec<ResourceTemplate>)
    ensures
        r@.len() == 2,
        r@[0].uri_template@ == "zotero://item/{key}"@,
        r@[0].name@ == "Zotero item"@,
        r@[0].description.deep_view() == Some("Full ZoteroItem metadata for a single key."@),
        r@[0].mime_type.deep_view() == Some("application/json"@),
        r@[1].uri_template@ == "zotero://item/{key}/fulltext"@,
        r@[1].name@ == "Zotero item fulltext"@,
        r@[1].description.deep_view() == Some(
            "Indexed PDF or plaintext fulltext for a single item."@,
        ),
        r@[1].mime_type.deep_view() == Some("application/json"@),
{
    let mut out: Vec<ResourceTemplate> = Vec::new();
    out.push(
        ResourceTemplate {
            uri_template: "zotero://item/{key}".to_owned(),
            name: "Zotero item".to_owned(),
            description: Some("Full ZoteroItem metadata for a single key.".to_owned()),
            mime_type: Some("application/json".to_owned()),
        },
    );
    out.push(
        ResourceTemplate {
            uri_template: "zotero://item/{key}/fulltext".to_owned(),
            name: "Zotero item fulltext".to_owned(),
            description: Some("Indexed PDF or plaintext fulltext for a single item.".to_owned()),
            mime_type: Some("application/json".to_owned()),
        },
    );
    out
}

/// What has to be fetched to read a resource.
#[derive(Debug)]
pub enum ReadPlan {
    /// A list of items, to be shown as compact records.
    Recent { request: Request },
    /// An item, to be shown in full.
    Item { request: Request },
    /// The full text of an item, to be searched for.
    Fulltext { key: String, state: FulltextState, action: FulltextAction },
}

/// Whether a plan reads what a URI addresses.
pub open spec fn reads(client: ClientView, uri: ParsedUriView, plan: ReadPlan) -> bool {
    match uri {
        ParsedUriView::Recent => plan matches ReadPlan::Recent { request } && request@
            == client.reading(client.recent_url(RECENT_COUNT as nat)),
        ParsedUriView::Item { key } => plan matches ReadPlan::Item { request } && request@
            == client.reading(client.item_url(key)),
        ParsedUriView::ItemFulltext { key } => {
            &&& plan matches ReadPlan::Fulltext { key: k, state, action }
            &&& k@ == key
            &&& state@ == (FulltextStateView::AskedItem { key })
            &&& action@ == (FulltextActionView::GetFulltext { key })
        },
    }
}

/// Plans the reading of a resource.
pub fn read(client: &ZoteroClient, uri: &str) -> (r: Result<ReadPlan, McpError>)
    ensures
        match addressed(uri@) {
            Some(p) => r matches Ok(plan) && reads(client@, p, plan),
            None => r matches Err(e) && e.says(
                ErrorKind::InvalidParams,
                "unrecognised resource URI: "@ + uri@,
            ),
        },
{
    match parse_uri(uri) {
        None => {
            let mut message = "unrecognised resource URI: ".to_owned();
            message.append(uri);
            Err(McpError::invalid_params(message))
        },
        Some(ParsedUri::Recent) => Ok(ReadPlan::Recent { request: client.recent(RECENT_COUNT) }),
        Some(ParsedUri::Item { key }) => Ok(
            ReadPlan::Item { request: client.get(key.as_str()) },
        ),
        Some(ParsedUri::ItemFulltext { key }) => {
            let (state, action) = fulltext_start(key.as_str());
            Ok(ReadPlan::Fulltext { key, state, action })
        },
    }
}

/// What was fetched to read a resource.
#[derive(Debug)]
pub enum Fetched {
    Items { items: Vec<ZoteroItem> },
    Item { item: ZoteroItem },
    Text { text: FullText },
}

impl ReadPlan {
    /// Whether this is what the plan fetches.
    pub open spec fn brings(self, fetched: Fetched) -> bool {
        match self {
            ReadPlan::Recent { .. } => fetched is Items,
            ReadPlan::Item { .. } => fetched is Item,
            ReadPlan::Fulltext { .. } => fetched is Text,
        }
    }
}

/// What a resource shows.
#[derive(Debug)]
pub enum Shown {
    Compact { records: Vec<CompactItem> },
    Item { item: ZoteroItem },
    Text { text: FullText },
}

/// Whether this is shown of what was fetched: compact records of a list of items, in
/// their order, an item in full, a full text as it was found.
pub open spec fn is_shown(fetched: Fetched, cap: nat, r: Shown) -> bool {
    match fetched {
        Fetched::Items { items } => r matches Shown::Compact { records } && are_compact(
            records@,
            items@,
            cap,
        ),
        Fetched::Item { item } => r == (Shown::Item { item }),
        Fetched::Text { text } => r == (Shown::Text { text }),
    }
}

/// What a resource shows of what was fetched, with abstracts cut to `cap` characters in
/// compact records.
pub fn shown(fetched: Fetched, cap: usize) -> (r: Shown)
    ensures
        is_shown(fetched, cap as nat, r),
{
    match fetched {
        Fetched::Items { items } => Shown::Compact { records: compact_items(&items, cap) },
        Fetched::Item { item } => Shown::Item { item },
        Fetched::Text { text } => Shown::Text { text },
    }
}

/// The recent items are shown as compact records, the item of a URI in full, and its
/// full text as it was found.
pub proof fn lemma_resource_shows(
    client: ClientView,
    uri: ParsedUriView,
    plan: ReadPlan,
    fetched: Fetched,
    cap: nat,
    r: Shown,
)
    requires
        reads(client, uri, plan),
        plan.brings(fetched),
        is_shown(fetched, cap, r),
    ensures
        match uri {
            ParsedUriView::Recent => fetched matches Fetched::Items { items } && (
            r matches Shown::Compact { records } && are_compact(records@, items@, cap)),
            ParsedUriView::Item { .. } => fetched matches Fetched::Item { item } && r
                == (Shown::Item { item }),
            ParsedUriView::ItemFulltext { .. } => fetched matches Fetched::Text { text } && r
                == (Shown::Text { text }),
        },
{
}

/// The contents of a resource.
#[derive(Debug)]
pub struct ResourceContents {
    pub uri: String,
    pub mime_type: Option<String>,
    pub text: String,
}

/// The contents of the resource of a URI, from the JSON text of what it holds. The
/// URI is the one of the request.
pub fn json_text(uri: &str, body: String) -> (r: ResourceContents)
    ensures
        r.uri@ == uri@,
        r.mime_type.deep_view() == Some("application/json"@),
        r.text@ == body@,
{
    ResourceContents {
        uri: uri.to_owned(),
        mime_type: Some("application/json".to_owned()),
        text: body,
    }
}

} // verus!
