use zotero_mcp::json::{Json, JsonObject};
use zotero_mcp::types::{
    abstract_max_chars, authors, compact_items, truncate_abstract, AbstractCap, CompactItem,
    Creator, ItemData, Tag, ZoteroItem,
};

/* ---- Creator::display_name ---- */

#[test]
fn display_name_first_and_last() {
    let c = Creator {
        creator_type: Some("author".into()),
        first_name: Some("Alan".into()),
        last_name: Some("Turing".into()),
        name: None,
    };
    assert_eq!(c.display_name(), "Turing, Alan");
}

#[test]
fn display_name_last_only() {
    let c = Creator {
        creator_type: Some("author".into()),
        first_name: None,
        last_name: Some("Turing".into()),
        name: None,
    };
    assert_eq!(c.display_name(), "Turing");
}

#[test]
fn display_name_institutional() {
    let c = Creator {
        creator_type: Some("author".into()),
        first_name: None,
        last_name: None,
        name: Some("IEEE".into()),
    };
    assert_eq!(c.display_name(), "IEEE");
}

#[test]
fn display_name_fallback_unknown() {
    let c = Creator {
        creator_type: Some("author".into()),
        first_name: None,
        last_name: None,
        name: None,
    };
    assert_eq!(c.display_name(), "Unknown");
}

#[test]
fn display_name_of_a_first_name_alone_is_unknown() {
    let c = Creator {
        creator_type: None,
        first_name: Some("Alan".into()),
        last_name: None,
        name: Some("IEEE".into()),
    };
    assert_eq!(c.display_name(), "Unknown");
}

/* ---- CompactItem::from_item ---- */

#[test]
fn compact_item_filters_authors_only() {
    let item = ZoteroItem {
        key: "K1".into(),
        version: 0,
        data: ItemData {
            key: "K1".into(),
            version: None,
            title: Some("Title".into()),
            item_type: Some("journalArticle".into()),
            date: Some("2024".into()),
            abstract_note: None,
            creators: vec![
                Creator {
                    creator_type: Some("author".into()),
                    first_name: Some("Alice".into()),
                    last_name: Some("Smith".into()),
                    name: None,
                },
                Creator {
                    creator_type: Some("editor".into()),
                    first_name: Some("Bob".into()),
                    last_name: Some("Jones".into()),
                    name: None,
                },
            ],
            tags: vec![Tag { tag: "ml".into() }],
            collections: vec![],
            doi: Some("10.1234/test".into()),
            url: None,
            extra: JsonObject::new(),
        },
    };
    let compact = CompactItem::from_item(&item, &mut AbstractCap::new(), None);
    assert_eq!(compact.key, "K1");
    assert_eq!(compact.authors.len(), 1);
    assert_eq!(compact.authors[0], "Smith, Alice");
    assert_eq!(compact.title.as_deref(), Some("Title"));
    assert_eq!(compact.item_type.as_deref(), Some("journalArticle"));
    assert_eq!(compact.date.as_deref(), Some("2024"));
    assert_eq!(authors(&item.data.creators), vec!["Smith, Alice"]);
}

#[test]
fn compact_item_no_creators() {
    let item = ZoteroItem {
        key: "K2".into(),
        version: 0,
        data: ItemData {
            key: "K2".into(),
            version: None,
            title: None,
            item_type: None,
            date: None,
            abstract_note: None,
            creators: vec![],
            tags: vec![],
            collections: vec![],
            doi: None,
            url: None,
            extra: JsonObject::new(),
        },
    };
    let compact = CompactItem::from_item(&item, &mut AbstractCap::new(), None);
    assert!(compact.authors.is_empty());
    assert!(compact.title.is_none());
}

/* ---- CompactItem abstract truncation ---- */

fn make_item_with_abstract(abs: Option<&str>) -> ZoteroItem {
    ZoteroItem {
        key: "K".into(),
        version: 0,
        data: ItemData {
            key: "K".into(),
            version: None,
            title: None,
            item_type: None,
            date: None,
            abstract_note: abs.map(|s| s.to_string()),
            creators: vec![],
            tags: vec![],
            collections: vec![],
            doi: None,
            url: None,
            extra: JsonObject::new(),
        },
    }
}

#[test]
fn compact_abstract_short_passes_through() {
    let item = make_item_with_abstract(Some("short abstract"));
    let c = CompactItem::from_item_with_cap(&item, 500);
    assert_eq!(c.abstract_note.as_deref(), Some("short abstract"));
}

#[test]
fn compact_abstract_truncated_with_ellipsis() {
    let long = "a".repeat(600);
    let item = make_item_with_abstract(Some(&long));
    let c = CompactItem::from_item_with_cap(&item, 500);
    let got = c.abstract_note.expect("abstract present");
    assert_eq!(got.chars().count(), 503, "500 chars + '...'");
    assert!(got.ends_with("..."));
    assert!(got.starts_with("aaaa"));
}

#[test]
fn compact_abstract_at_cap_not_truncated() {
    let exact = "b".repeat(500);
    let item = make_item_with_abstract(Some(&exact));
    let c = CompactItem::from_item_with_cap(&item, 500);
    let got = c.abstract_note.expect("abstract present");
    assert_eq!(got.chars().count(), 500);
    assert!(!got.ends_with("..."));
}

#[test]
fn compact_abstract_empty_omitted() {
    let item = make_item_with_abstract(Some(""));
    let c = CompactItem::from_item_with_cap(&item, 500);
    assert!(c.abstract_note.is_none());
}

#[test]
fn compact_abstract_missing_omitted() {
    let item = make_item_with_abstract(None);
    let c = CompactItem::from_item_with_cap(&item, 500);
    assert!(c.abstract_note.is_none());
}

#[test]
fn compact_abstract_cap_zero_omits_field() {
    let item = make_item_with_abstract(Some("nonempty"));
    let c = CompactItem::from_item_with_cap(&item, 0);
    assert!(c.abstract_note.is_none());
}

#[test]
fn compact_abstract_truncates_by_chars_not_bytes() {
    let s: String = "e".repeat(600) + &"a".repeat(10);
    let item = make_item_with_abstract(Some(&s));
    let c = CompactItem::from_item_with_cap(&item, 500);
    let got = c.abstract_note.unwrap();
    assert_eq!(got.chars().count(), 503);
    assert!(got.ends_with("..."));
}

#[test]
fn compact_abstract_of_wide_characters() {
    assert_eq!(truncate_abstract("éèüö", 4).as_deref(), Some("éèüö"));
    assert_eq!(truncate_abstract("éèüö", 2).as_deref(), Some("éè..."));
    assert_eq!(truncate_abstract("日本語", 1).as_deref(), Some("日..."));
}

#[test]
fn compact_from_item_uses_env_cap_default() {
    let item = make_item_with_abstract(Some("hello"));
    let c = CompactItem::from_item(&item, &mut AbstractCap::new(), None);
    assert_eq!(c.abstract_note.as_deref(), Some("hello"));
}

#[test]
fn abstract_cap_setting() {
    let cap = |setting: Option<&str>| abstract_max_chars(&mut AbstractCap::new(), setting);
    assert_eq!(cap(None), 500);
    assert_eq!(cap(Some("12")), 12);
    assert_eq!(cap(Some("+12")), 12);
    assert_eq!(cap(Some("0")), 0);
    assert_eq!(cap(Some("")), 500);
    assert_eq!(cap(Some("+")), 500);
    assert_eq!(cap(Some("-1")), 500);
    assert_eq!(cap(Some("12 ")), 500);
    assert_eq!(cap(Some("1e3")), 500);
    assert_eq!(cap(Some("99999999999999999999999")), 500);
    assert_eq!(cap(Some(&usize::MAX.to_string())), usize::MAX);

    let item = make_item_with_abstract(Some("hello"));
    let shown = |setting: Option<&str>| {
        CompactItem::from_item(&item, &mut AbstractCap::new(), setting).abstract_note
    };
    assert_eq!(shown(Some("2")).as_deref(), Some("he..."));
    assert!(shown(Some("0")).is_none());
}

#[test]
fn the_first_setting_stays() {
    let mut cap = AbstractCap::new();
    assert_eq!(abstract_max_chars(&mut cap, Some("2")), 2);
    assert_eq!(abstract_max_chars(&mut cap, Some("3")), 2);
    assert_eq!(abstract_max_chars(&mut cap, None), 2);
    let item = make_item_with_abstract(Some("hello"));
    let c = CompactItem::from_item(&item, &mut cap, Some("4"));
    assert_eq!(c.abstract_note.as_deref(), Some("he..."));

    let mut unset = AbstractCap::new();
    assert_eq!(abstract_max_chars(&mut unset, None), 500);
    assert_eq!(abstract_max_chars(&mut unset, Some("3")), 500);
}

#[test]
fn compact_items_keep_their_order() {
    let mut first = make_item_with_abstract(Some("abc"));
    first.key = "A".into();
    let mut second = make_item_with_abstract(None);
    second.key = "B".into();
    let records = compact_items(&vec![first, second], 1);
    assert_eq!(records.len(), 2);
    assert_eq!(records[0].key, "A");
    assert_eq!(records[0].abstract_note.as_deref(), Some("a..."));
    assert_eq!(records[1].key, "B");
    assert!(records[1].abstract_note.is_none());
}

/* ---- the fields of an item under the names of the API ---- */

#[test]
fn item_fields_in_json() {
    let mut item = make_item_with_abstract(Some("abs"));
    item.data.version = Some(3);
    item.data.creators = vec![Creator {
        creator_type: Some("author".into()),
        first_name: None,
        last_name: Some("Doe".into()),
        name: None,
    }];
    item.data.tags = vec![Tag { tag: "test".into() }];
    item.data.collections = vec!["COL".into()];
    item.data.extra.insert("DOI".into(), Json::text("10.1/x"));
    item.data.extra.insert("volume".into(), Json::Unsigned(4));
    assert_eq!(
        Json::Object(item.data.to_object()).to_text(),
        "{\"DOI\":\"10.1/x\",\"abstractNote\":\"abs\",\"collections\":[\"COL\"],\
         \"creators\":[{\"creatorType\":\"author\",\"firstName\":null,\"lastName\":\"Doe\",\
         \"name\":null}],\"date\":null,\"doi\":null,\"itemType\":null,\"key\":\"K\",\
         \"tags\":[{\"tag\":\"test\"}],\"title\":null,\"url\":null,\"version\":3,\"volume\":4}"
    );
}

#[test]
fn undeclared_fields_replace_declared_ones() {
    let mut item = make_item_with_abstract(None);
    item.data.title = Some("declared".into());
    item.data.extra.insert("title".into(), Json::text("undeclared"));
    let fields = item.data.to_object();
    assert_eq!(fields.get("title").unwrap().as_str(), Some("undeclared"));
}
