use zotero_mcp::client::ZoteroClient;
use zotero_mcp::config::Config;
use zotero_mcp::error::ErrorKind;
use zotero_mcp::fulltext::FulltextAction;
use zotero_mcp::resources::{
    json_text, parse_uri, read, resource_templates, shown, static_resources, Fetched, ParsedUri,
    ReadPlan, Shown, RECENT_URI,
};
use zotero_mcp::json::JsonObject;
use zotero_mcp::types::{FullText, ItemData, ZoteroItem};

#[test]
fn parse_recent() {
    assert!(matches!(parse_uri(RECENT_URI), Some(ParsedUri::Recent)));
}

#[test]
fn parse_item() {
    match parse_uri("zotero://item/ABCD1234") {
        Some(ParsedUri::Item { key }) => assert_eq!(key, "ABCD1234"),
        other => panic!("expected Item, got {:?}", matches!(other, Some(_))),
    }
}

#[test]
fn parse_item_fulltext() {
    match parse_uri("zotero://item/ABCD1234/fulltext") {
        Some(ParsedUri::ItemFulltext { key }) => assert_eq!(key, "ABCD1234"),
        other => panic!("expected ItemFulltext, got {:?}", matches!(other, Some(_))),
    }
}

#[test]
fn parse_rejects_empty_key() {
    assert!(parse_uri("zotero://item/").is_none());
    assert!(parse_uri("zotero://item//fulltext").is_none());
}

#[test]
fn parse_rejects_extra_segments() {
    assert!(parse_uri("zotero://item/ABC/foo").is_none());
    assert!(parse_uri("zotero://item/ABC/fulltext/extra").is_none());
}

#[test]
fn parse_rejects_unknown_scheme() {
    assert!(parse_uri("file:///etc/passwd").is_none());
    assert!(parse_uri("zotero://other/ABC").is_none());
}

#[test]
fn parse_accepts_any_key_without_a_slash() {
    match parse_uri("zotero://item/fulltext") {
        Some(ParsedUri::Item { key }) => assert_eq!(key, "fulltext"),
        _ => panic!("expected Item"),
    }
    match parse_uri("zotero://item/é") {
        Some(ParsedUri::Item { key }) => assert_eq!(key, "é"),
        _ => panic!("expected Item"),
    }
    assert!(parse_uri("").is_none());
    assert!(parse_uri("zotero://recent/").is_none());
}

#[test]
fn static_resources_advertise_recent() {
    let r = static_resources();
    assert_eq!(r.len(), 1);
    assert_eq!(r[0].uri, RECENT_URI);
    assert_eq!(r[0].mime_type.as_deref(), Some("application/json"));
}

#[test]
fn templates_cover_item_and_fulltext() {
    let t = resource_templates();
    let uris: Vec<&str> = t.iter().map(|x| x.uri_template.as_str()).collect();
    assert!(uris.contains(&"zotero://item/{key}"));
    assert!(uris.contains(&"zotero://item/{key}/fulltext"));
}

#[test]
fn reading_asks_for_what_the_uri_addresses() {
    let client = ZoteroClient::new(&Config::default()).unwrap();
    match read(&client, "zotero://recent") {
        Ok(ReadPlan::Recent { request }) => assert_eq!(
            request.url,
            "http://localhost:23119/api/users/0/items?sort=dateAdded&direction=desc&limit=10&v=3"
        ),
        _ => panic!("expected the recent items"),
    }
    match read(&client, "zotero://item/ABCD1234") {
        Ok(ReadPlan::Item { request }) => {
            assert_eq!(request.url, "http://localhost:23119/api/users/0/items/ABCD1234?v=3")
        }
        _ => panic!("expected an item"),
    }
    match read(&client, "zotero://item/ABCD1234/fulltext") {
        Ok(ReadPlan::Fulltext { key, action: FulltextAction::GetFulltext { key: asked }, .. }) => {
            assert_eq!(key, "ABCD1234");
            assert_eq!(asked, "ABCD1234");
        }
        _ => panic!("expected a full text"),
    }
    let e = read(&client, "zotero://other").err().unwrap();
    assert_eq!(e.kind, ErrorKind::InvalidParams);
    assert_eq!(e.message, "unrecognised resource URI: zotero://other");
}

#[test]
fn contents_echo_the_uri() {
    let c = json_text("zotero://recent", "[]".to_string());
    assert_eq!(c.uri, "zotero://recent");
    assert_eq!(c.mime_type.as_deref(), Some("application/json"));
    assert_eq!(c.text, "[]");
}

fn make_item(key: &str) -> ZoteroItem {
    ZoteroItem {
        key: key.into(),
        version: 1,
        data: ItemData {
            key: key.into(),
            version: None,
            title: None,
            item_type: None,
            date: None,
            abstract_note: Some("abstract".into()),
            creators: vec![],
            tags: vec![],
            collections: vec!["C".into()],
            doi: None,
            url: None,
            extra: JsonObject::new(),
        },
    }
}

#[test]
fn resources_show_what_was_fetched() {
    match shown(Fetched::Items { items: vec![make_item("A"), make_item("B")] }, 3) {
        Shown::Compact { records } => {
            assert_eq!(records.len(), 2);
            assert_eq!(records[0].key, "A");
            assert_eq!(records[1].key, "B");
            assert_eq!(records[0].abstract_note.as_deref(), Some("abs..."));
        }
        _ => panic!("expected compact records"),
    }
    match shown(Fetched::Item { item: make_item("A") }, 3) {
        Shown::Item { item } => {
            assert_eq!(item.key, "A");
            assert_eq!(item.data.abstract_note.as_deref(), Some("abstract"));
            assert_eq!(item.data.collections, vec!["C"]);
        }
        _ => panic!("expected the item in full"),
    }
    let text = FullText {
        content: "text".into(),
        indexed_chars: 1,
        total_chars: 2,
        indexed_pages: 3,
        total_pages: 4,
    };
    match shown(Fetched::Text { text }, 3) {
        Shown::Text { text } => {
            assert_eq!(text.content, "text");
            assert_eq!(text.total_pages, 4);
        }
        _ => panic!("expected the full text"),
    }
}
