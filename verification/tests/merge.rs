use zotero_mcp::json::{Json, JsonObject};
use zotero_mcp::merge::{build_dry_run_report, is_empty, reconcile_items, try_dry_run_report};
use zotero_mcp::types::{Creator, ItemData, Tag, ZoteroItem};

fn make_item(key: &str) -> ZoteroItem {
    ZoteroItem {
        key: key.into(),
        version: 1,
        data: ItemData {
            key: key.into(),
            version: Some(1),
            title: None,
            item_type: Some("journalArticle".into()),
            date: None,
            abstract_note: None,
            creators: vec![],
            tags: vec![],
            collections: vec![],
            doi: None,
            url: None,
            extra: JsonObject::new(),
        },
    }
}

fn text<'a>(j: &'a Json, key: &str) -> Option<&'a str> {
    j.get(key).and_then(|v| v.as_str())
}

#[test]
fn prefer_nonempty_target() {
    let mut target = make_item("T1");
    target.data.title = Some("Target Title".into());
    let mut source = make_item("S1");
    source.data.title = Some("Source Title".into());

    let merged = reconcile_items(&target, &source);
    assert_eq!(text(&merged, "title"), Some("Target Title"));
}

#[test]
fn fill_empty_from_source() {
    let target = make_item("T1");
    let mut source = make_item("S1");
    source.data.doi = Some("10.1234/test".into());

    let merged = reconcile_items(&target, &source);
    assert_eq!(text(&merged, "doi"), Some("10.1234/test"));
}

#[test]
fn union_tags() {
    let mut target = make_item("T1");
    target.data.tags = vec![Tag { tag: "alpha".into() }, Tag { tag: "beta".into() }];
    let mut source = make_item("S1");
    source.data.tags = vec![Tag { tag: "beta".into() }, Tag { tag: "gamma".into() }];

    let merged = reconcile_items(&target, &source);
    let tags: Vec<String> = merged
        .get("tags")
        .unwrap()
        .as_array()
        .unwrap()
        .iter()
        .map(|t| text(t, "tag").unwrap().to_string())
        .collect();
    assert_eq!(tags, vec!["alpha", "beta", "gamma"]);
}

#[test]
fn union_collections() {
    let mut target = make_item("T1");
    target.data.collections = vec!["COL1".into(), "COL2".into()];
    let mut source = make_item("S1");
    source.data.collections = vec!["COL2".into(), "COL3".into()];

    let merged = reconcile_items(&target, &source);
    let cols: Vec<String> = merged
        .get("collections")
        .unwrap()
        .as_array()
        .unwrap()
        .iter()
        .map(|c| c.as_str().unwrap().to_string())
        .collect();
    assert_eq!(cols, vec!["COL1", "COL2", "COL3"]);
}

#[test]
fn structural_fields_unchanged() {
    let mut target = make_item("T1");
    target.data.item_type = Some("journalArticle".into());
    let mut source = make_item("S1");
    source.data.item_type = Some("book".into());

    let merged = reconcile_items(&target, &source);
    assert_eq!(text(&merged, "itemType"), Some("journalArticle"));
}

#[test]
fn is_empty_cases() {
    assert!(is_empty(None));
    assert!(is_empty(Some(&Json::Null)));
    assert!(is_empty(Some(&Json::Text(String::new()))));
    assert!(is_empty(Some(&Json::Array(vec![]))));
    assert!(!is_empty(Some(&Json::Text("x".into()))));
    assert!(!is_empty(Some(&Json::Bool(false))));
}

#[test]
fn is_empty_of_other_values() {
    assert!(!is_empty(Some(&Json::Object(JsonObject::new()))));
    assert!(!is_empty(Some(&Json::Unsigned(0))));
    assert!(!is_empty(Some(&Json::Array(vec![Json::Null]))));
}

#[test]
fn dry_run_report_contains_keys() {
    let mut target = make_item("TGT");
    target.data.title = Some("Target Paper".into());
    let mut source = make_item("SRC");
    source.data.title = Some("Source Paper".into());
    source.data.doi = Some("10.1234/test".into());

    let merged = reconcile_items(&target, &source);
    let report = build_dry_run_report(&target, &source, &merged, &[]);

    assert!(report.contains("TGT"));
    assert!(report.contains("SRC"));
    assert!(report.contains("Target Paper"));
    assert!(report.contains("Source Paper"));
    assert!(report.contains("trash"));
    assert_eq!(
        report,
        "target: TGT -- Target Paper\nsource: SRC -- Source Paper\n\nfields:\n  \
         doi: (none) -> 10.1234/test\n\nsource SRC will be moved to trash"
    );
}

#[test]
fn keep_target_creators_when_nonempty() {
    let mut target = make_item("T1");
    target.data.creators = vec![Creator {
        creator_type: Some("author".into()),
        first_name: Some("Alice".into()),
        last_name: Some("Smith".into()),
        name: None,
    }];
    let mut source = make_item("S1");
    source.data.creators = vec![Creator {
        creator_type: Some("author".into()),
        first_name: Some("Bob".into()),
        last_name: Some("Jones".into()),
        name: None,
    }];

    let merged = reconcile_items(&target, &source);
    let creators = merged.get("creators").unwrap().as_array().unwrap();
    assert_eq!(creators.len(), 1);
    assert_eq!(text(&creators[0], "lastName"), Some("Smith"));
}

#[test]
fn every_field_of_a_merge() {
    let mut target = make_item("T1");
    target.data.title = Some("".into());
    target.data.url = Some("http://t".into());
    target.data.extra.insert("pages".into(), Json::text(""));
    target.data.extra.insert("dateAdded".into(), Json::Null);
    let mut source = make_item("S1");
    source.version = 9;
    source.data.version = Some(9);
    source.data.title = Some("From source".into());
    source.data.url = Some("http://s".into());
    source.data.extra.insert("pages".into(), Json::Unsigned(12));
    source.data.extra.insert("volume".into(), Json::text("3"));
    source.data.extra.insert("issue".into(), Json::text(""));
    source.data.extra.insert("dateAdded".into(), Json::text("2024"));
    source.data.tags = vec![Tag { tag: "é".into() }, Tag { tag: "b".into() }, Tag { tag: "b".into() }];

    let merged = reconcile_items(&target, &source);
    assert_eq!(
        merged.to_text(),
        "{\"abstractNote\":null,\"collections\":[],\"creators\":[],\"date\":null,\
         \"dateAdded\":null,\"doi\":null,\"itemType\":\"journalArticle\",\"key\":\"T1\",\
         \"pages\":12,\"tags\":[{\"tag\":\"b\"},{\"tag\":\"é\"}],\"title\":\"From source\",\
         \"url\":\"http://t\",\"version\":1,\"volume\":\"3\"}"
    );
}

#[test]
fn merging_again_changes_nothing() {
    let mut target = make_item("T1");
    target.data.tags = vec![Tag { tag: "b".into() }];
    target.data.collections = vec!["C2".into()];
    let mut source = make_item("S1");
    source.data.title = Some("T".into());
    source.data.tags = vec![Tag { tag: "a".into() }, Tag { tag: "b".into() }];
    source.data.collections = vec!["C1".into()];
    source.data.extra.insert("pages".into(), Json::Unsigned(12));
    let merged = reconcile_items(&target, &source);

    let mut again = make_item("T1");
    again.data.title = Some("T".into());
    again.data.tags = vec![Tag { tag: "a".into() }, Tag { tag: "b".into() }];
    again.data.collections = vec!["C1".into(), "C2".into()];
    again.data.extra.insert("pages".into(), Json::Unsigned(12));
    assert!(Json::Object(again.data.to_object()).equals(&merged));
    assert!(reconcile_items(&again, &source).equals(&merged));
}

#[test]
fn a_report_of_every_kind_of_change() {
    let mut target = make_item("TGT");
    target.data.title = Some("".into());
    target.data.tags = vec![Tag { tag: "kept".into() }];
    target.data.extra.insert("relations".into(), Json::Array(vec![]));
    let mut source = make_item("SRC");
    source.data.title = Some("x".repeat(61));
    source.data.tags = vec![
        Tag { tag: "z".into() },
        Tag { tag: "kept".into() },
        Tag { tag: "a".into() },
        Tag { tag: "z".into() },
    ];
    source.data.collections = vec!["C2".into(), "C1".into()];
    source.data.extra.insert("pages".into(), Json::Unsigned(12));
    source.data.extra.insert(
        "relations".into(),
        Json::Array(vec![Json::Text("y".repeat(60))]),
    );

    let merged = reconcile_items(&target, &source);
    let report = build_dry_run_report(&target, &source, &merged, &[Json::Null, Json::Null]);
    assert_eq!(
        report,
        format!(
            "target: TGT -- \nsource: SRC -- {}\n\nfields:\n  pages: (none) -> 12\n  \
             relations: (empty) -> [\"{}...\n  title: (empty) -> {}...\ntags added: a, z\n\
             collections added: C1, C2\nchildren to re-parent: 2\n\n\
             source SRC will be moved to trash",
            "x".repeat(61),
            "y".repeat(55),
            "x".repeat(57),
        )
    );
}

#[test]
fn a_report_of_no_change() {
    let target = make_item("TGT");
    let source = make_item("SRC");
    let merged = reconcile_items(&target, &source);
    assert_eq!(
        try_dry_run_report(&target, &source, &merged, &[]).as_deref(),
        Some(
            "target: TGT -- (untitled)\nsource: SRC -- (untitled)\n\nfields: no changes\n\n\
             source SRC will be moved to trash"
        )
    );
}

#[test]
fn a_report_that_would_cut_a_character_is_none() {
    let target = make_item("TGT");
    let mut source = make_item("SRC");
    source.data.title = Some("é".repeat(31));
    let merged = reconcile_items(&target, &source);
    assert!(try_dry_run_report(&target, &source, &merged, &[]).is_none());
    source.data.title = Some("é".repeat(30));
    let merged = reconcile_items(&target, &source);
    let report = try_dry_run_report(&target, &source, &merged, &[]).unwrap();
    assert!(report.contains(&format!("title: (none) -> {}", "é".repeat(30))));
    assert!(try_dry_run_report(&target, &source, &Json::Null, &[]).is_none());
}
