use zotero_mcp::client::{ClientError, LibraryRef, ZoteroClient};
use zotero_mcp::config::Config;
use zotero_mcp::error::ErrorKind;
use zotero_mcp::json::{Json, JsonObject};
use zotero_mcp::tools::{
    apply_collection_op, apply_tags_op, default_recent, default_search_limit, export_citation,
    list_collections, map_err, mutate_collections, ok_json, pick_client, serialized, shape_item, shape_items, CitationFormat,
    CollectionArgs, CollectionMembershipArgs, CollectionOp, ExportCitationArgs, ItemList,
    ItemRecord, RecentArgs, SearchArgs, SetTagsArgs, SetTagsMode,
};
use zotero_mcp::types::{CollectionData, ItemData, ZoteroCollection, ZoteroItem};

#[test]
fn citation_format_as_str_is_api_token() {
    assert_eq!(CitationFormat::Bibtex.as_str(), "bibtex");
    assert_eq!(CitationFormat::Biblatex.as_str(), "biblatex");
    assert_eq!(CitationFormat::Csljson.as_str(), "csljson");
    assert_eq!(CitationFormat::Ris.as_str(), "ris");
}

#[test]
fn export_citation_args_accepts_multi_key() {
    let a = ExportCitationArgs {
        keys: vec!["AAA".to_string(), "BBB".to_string()],
        format: CitationFormat::Bibtex,
        library: None,
    };
    assert_eq!(a.keys, vec!["AAA".to_string(), "BBB".to_string()]);
    assert_eq!(a.format.as_str(), "bibtex");
    let client = ZoteroClient::new(&Config::default()).unwrap();
    assert_eq!(
        export_citation(&client, a).unwrap().url,
        "http://localhost:23119/api/users/0/items?itemKey=AAA,BBB&format=bibtex&v=3"
    );
}

#[test]
fn export_citation_needs_a_key() {
    let client = ZoteroClient::new(&Config::default()).unwrap();
    let none = ExportCitationArgs { keys: vec![], format: CitationFormat::Ris, library: None };
    let e = export_citation(&client, none).err().unwrap();
    assert_eq!(e.kind, ErrorKind::InvalidParams);
    assert_eq!(e.message, "keys must not be empty");
    let other = ExportCitationArgs {
        keys: vec!["AAA".to_string()],
        format: CitationFormat::Csljson,
        library: Some(LibraryRef { library_type: "group".into(), id: 42 }),
    };
    assert_eq!(
        export_citation(&client, other).unwrap().url,
        "http://localhost:23119/api/groups/42/items?itemKey=AAA&format=csljson&v=3"
    );
}

/* compact toggle on search / recent / collection_items --------- */

#[test]
fn search_args_compact_default_is_true() {
    let a = SearchArgs::new("foo".to_string());
    assert!(a.compact, "compact must default to true");
    assert_eq!(a.query, "foo");
    assert_eq!(a.limit, 25);
    assert!(a.library.is_none());
    assert_eq!(default_search_limit(), 25);
}

#[test]
fn search_args_compact_can_be_disabled() {
    let a = SearchArgs { compact: false, ..SearchArgs::new("foo".to_string()) };
    assert!(!a.compact);
}

#[test]
fn recent_args_compact_default_is_true() {
    let a = RecentArgs::new();
    assert!(a.compact, "compact must default to true");
    assert_eq!(a.n, 10);
    assert_eq!(default_recent(), 10);
}

#[test]
fn recent_args_compact_can_be_disabled() {
    let a = RecentArgs { compact: false, ..RecentArgs::new() };
    assert!(!a.compact);
}

#[test]
fn collection_args_compact_default_is_true() {
    let a = CollectionArgs::new("ABCDEFGH".to_string());
    assert!(a.compact, "compact must default to true");
    assert_eq!(a.id, "ABCDEFGH");
}

#[test]
fn collection_args_compact_can_be_disabled() {
    let a = CollectionArgs { compact: false, ..CollectionArgs::new("ABCDEFGH".to_string()) };
    assert!(!a.compact);
}

/* --- collection membership helper ----------------------------------- */

#[test]
fn add_collection_to_empty() {
    let cur: Vec<String> = vec![];
    let (next, changed) = apply_collection_op(&cur, "AAAA1111", CollectionOp::Add);
    assert!(changed);
    assert_eq!(next, vec!["AAAA1111".to_string()]);
}

#[test]
fn add_collection_already_present_is_noop() {
    let cur = vec!["AAAA1111".to_string(), "BBBB2222".to_string()];
    let (next, changed) = apply_collection_op(&cur, "AAAA1111", CollectionOp::Add);
    assert!(!changed, "adding a present id must not flip changed");
    assert_eq!(next, cur);
}

#[test]
fn add_collection_appends_at_end() {
    let cur = vec!["AAAA1111".to_string(), "BBBB2222".to_string()];
    let (next, changed) = apply_collection_op(&cur, "CCCC3333", CollectionOp::Add);
    assert!(changed);
    assert_eq!(
        next,
        vec![
            "AAAA1111".to_string(),
            "BBBB2222".to_string(),
            "CCCC3333".to_string(),
        ]
    );
}

#[test]
fn remove_collection_present() {
    let cur = vec!["AAAA1111".to_string(), "BBBB2222".to_string()];
    let (next, changed) = apply_collection_op(&cur, "AAAA1111", CollectionOp::Remove);
    assert!(changed);
    assert_eq!(next, vec!["BBBB2222".to_string()]);
}

#[test]
fn remove_collection_absent_is_noop() {
    let cur = vec!["AAAA1111".to_string()];
    let (next, changed) = apply_collection_op(&cur, "ZZZZ9999", CollectionOp::Remove);
    assert!(!changed);
    assert_eq!(next, cur);
}

#[test]
fn remove_collection_removes_every_occurrence() {
    let cur = s(&["A", "B", "A"]);
    let (next, changed) = apply_collection_op(&cur, "A", CollectionOp::Remove);
    assert!(changed);
    assert_eq!(next, s(&["B"]));
}

#[test]
fn removing_undoes_adding() {
    let cur = s(&["A", "B"]);
    let (added, _) = apply_collection_op(&cur, "C", CollectionOp::Add);
    let (again, changed) = apply_collection_op(&added, "C", CollectionOp::Add);
    assert_eq!(again, added);
    assert!(!changed);
    let (removed, _) = apply_collection_op(&added, "C", CollectionOp::Remove);
    assert_eq!(removed, cur);
}

#[test]
fn collection_membership_args_full_payload() {
    let a = CollectionMembershipArgs {
        key: "ITEM1234".to_string(),
        collection_id: "COLLAAAA".to_string(),
        library: Some(LibraryRef { library_type: "group".to_string(), id: 42 }),
    };
    assert_eq!(a.key, "ITEM1234");
    assert_eq!(a.collection_id, "COLLAAAA");
    assert!(a.library.is_some());
    let client = ZoteroClient::new(&Config::default()).unwrap();
    assert_eq!(pick_client(&client, a.library).lib_path(), "/groups/42");
}

#[test]
fn collection_membership_args_library_optional() {
    let a = CollectionMembershipArgs {
        key: "X".to_string(),
        collection_id: "Y".to_string(),
        library: None,
    };
    assert!(a.library.is_none());
    let client = ZoteroClient::new(&Config::default()).unwrap();
    assert_eq!(pick_client(&client, a.library).lib_path(), "/users/0");
}

/* --- set_tags helper ------------------------------------------------ */

fn s(items: &[&str]) -> Vec<String> {
    items.iter().map(|x| x.to_string()).collect()
}

#[test]
fn add_tags_to_empty_dedups_input() {
    let (next, changed) = apply_tags_op(&[], &s(&["x", "x", "y"]), SetTagsMode::Add);
    assert!(changed);
    assert_eq!(next, s(&["x", "y"]));
}

#[test]
fn add_tags_when_all_present_is_noop() {
    let cur = s(&["a", "b"]);
    let (next, changed) = apply_tags_op(&cur, &s(&["a", "b"]), SetTagsMode::Add);
    assert!(!changed);
    assert_eq!(next, cur);
}

#[test]
fn add_tags_appends_only_missing_preserving_order() {
    let cur = s(&["a", "b"]);
    let (next, changed) = apply_tags_op(&cur, &s(&["b", "c", "d"]), SetTagsMode::Add);
    assert!(changed);
    assert_eq!(next, s(&["a", "b", "c", "d"]));
}

#[test]
fn remove_tags_present() {
    let cur = s(&["a", "b", "c"]);
    let (next, changed) = apply_tags_op(&cur, &s(&["b"]), SetTagsMode::Remove);
    assert!(changed);
    assert_eq!(next, s(&["a", "c"]));
}

#[test]
fn remove_tags_absent_is_noop() {
    let cur = s(&["a"]);
    let (next, changed) = apply_tags_op(&cur, &s(&["z"]), SetTagsMode::Remove);
    assert!(!changed);
    assert_eq!(next, cur);
}

#[test]
fn replace_tags_with_different_set() {
    let cur = s(&["a", "b"]);
    let (next, changed) = apply_tags_op(&cur, &s(&["x", "y"]), SetTagsMode::Replace);
    assert!(changed);
    assert_eq!(next, s(&["x", "y"]));
}

#[test]
fn replace_tags_with_same_set_is_noop() {
    let cur = s(&["a", "b"]);
    let (next, changed) = apply_tags_op(&cur, &s(&["a", "b"]), SetTagsMode::Replace);
    assert!(!changed);
    assert_eq!(next, cur);
}

#[test]
fn replace_tags_dedups_input() {
    let (next, changed) = apply_tags_op(&[], &s(&["a", "a", "b"]), SetTagsMode::Replace);
    assert!(changed);
    assert_eq!(next, s(&["a", "b"]));
}

#[test]
fn tags_are_case_sensitive() {
    let cur = s(&["ml"]);
    let (next, changed) = apply_tags_op(&cur, &s(&["ML"]), SetTagsMode::Add);
    assert!(changed, "uppercase ML must be treated as distinct from lowercase ml");
    assert_eq!(next, s(&["ml", "ML"]));
}

#[test]
fn a_change_of_tags_made_again_changes_nothing() {
    for mode in [SetTagsMode::Add, SetTagsMode::Remove, SetTagsMode::Replace] {
        let (next, _) = apply_tags_op(&s(&["a", "b", "a"]), &s(&["b", "c"]), mode);
        let (again, changed) = apply_tags_op(&next, &s(&["b", "c"]), mode);
        assert_eq!(again, next);
        assert!(!changed);
    }
}

#[test]
fn set_tags_args_mode_default_is_add() {
    let a = SetTagsArgs::new("K".to_string(), s(&["x"]));
    assert_eq!(a.mode, SetTagsMode::Add);
    assert!(a.library.is_none());
}

#[test]
fn set_tags_args_full_payload() {
    let a = SetTagsArgs {
        key: "K".to_string(),
        tags: s(&["a"]),
        mode: SetTagsMode::Replace,
        library: Some(LibraryRef { library_type: "group".to_string(), id: 1 }),
    };
    assert_eq!(a.mode, SetTagsMode::Replace);
    assert!(a.library.is_some());
}

/* --- what the tools return ------------------------------------------- */

fn make_item(collections: &[&str]) -> ZoteroItem {
    ZoteroItem {
        key: "K".into(),
        version: 6,
        data: ItemData {
            key: "K".into(),
            version: Some(6),
            title: Some("T".into()),
            item_type: None,
            date: None,
            abstract_note: Some("abstract".into()),
            creators: vec![],
            tags: vec![],
            collections: s(collections),
            doi: None,
            url: None,
            extra: JsonObject::new(),
        },
    }
}

#[test]
fn a_membership_change_is_written_once() {
    let item = make_item(&["A"]);
    let change = mutate_collections(&item, "K", "B", CollectionOp::Add);
    let (version, data) = change.patch.unwrap();
    assert_eq!(version, 6);
    assert_eq!(data.to_text(), "{\"collections\":[\"A\",\"B\"]}");
    assert_eq!(change.result.to_text(), "{\"collections\":[\"A\",\"B\"],\"key\":\"K\"}");

    let change = mutate_collections(&item, "K", "A", CollectionOp::Remove);
    assert_eq!(change.patch.unwrap().1.to_text(), "{\"collections\":[]}");
}

#[test]
fn a_membership_that_is_there_is_not_written() {
    let item = make_item(&["A"]);
    let change = mutate_collections(&item, "K", "A", CollectionOp::Add);
    assert!(change.patch.is_none());
    assert_eq!(change.result.to_text(), "{\"collections\":[\"A\"],\"key\":\"K\"}");
    assert!(mutate_collections(&item, "K", "B", CollectionOp::Remove).patch.is_none());
}

#[test]
fn items_are_compact_or_full() {
    match shape_items(vec![make_item(&[])], true, 3) {
        ItemList::Compact { records } => {
            assert_eq!(records.len(), 1);
            assert_eq!(records[0].abstract_note.as_deref(), Some("abs..."));
        }
        ItemList::Full { .. } => panic!("expected compact records"),
    }
    match shape_items(vec![make_item(&["C"])], false, 3) {
        ItemList::Full { items } => {
            assert_eq!(items[0].data.abstract_note.as_deref(), Some("abstract"))
        }
        ItemList::Compact { .. } => panic!("expected full items"),
    }
    match shape_item(make_item(&[]), true, 500) {
        ItemRecord::Compact { record } => assert_eq!(record.title.as_deref(), Some("T")),
        ItemRecord::Full { .. } => panic!("expected a compact record"),
    }
    match shape_item(make_item(&["C"]), false, 500) {
        ItemRecord::Full { item } => assert_eq!(item.data.collections, s(&["C"])),
        ItemRecord::Compact { .. } => panic!("expected a full item"),
    }
}

#[test]
fn collections_are_listed_by_key_and_name() {
    let cols = vec![
        ZoteroCollection {
            key: "C1".into(),
            data: CollectionData { key: "C1".into(), name: "One".into(), parent_collection: None },
        },
        ZoteroCollection {
            key: "C2".into(),
            data: CollectionData { key: "X".into(), name: "Two".into(), parent_collection: None },
        },
    ];
    let listed = list_collections(&cols);
    assert_eq!(listed.len(), 2);
    assert_eq!(listed[0].to_text(), "{\"key\":\"C1\",\"name\":\"One\"}");
    assert_eq!(listed[1].to_text(), "{\"key\":\"C2\",\"name\":\"Two\"}");
}

#[test]
fn failures_of_the_api_are_internal_errors() {
    let e = map_err(ClientError::Api { status: 500, body: "no".to_string() });
    assert_eq!(e.kind, ErrorKind::InternalError);
    assert_eq!(e.message, "Zotero API error 500: no");
}

#[test]
fn values_are_answered_in_pretty_json() {
    let v = Json::parse("{\"b\":[1,{}],\"a\":null}").unwrap();
    assert_eq!(
        ok_json(&v).ok().unwrap(),
        "{\n  \"a\": null,\n  \"b\": [\n    1,\n    {}\n  ]\n}"
    );
    assert_eq!(ok_json(&Json::Array(vec![])).ok().unwrap(), "[]");
}

#[test]
fn a_failed_serialization_is_an_internal_error() {
    assert_eq!(serialized(Ok("text".to_string())).ok().unwrap(), "text");
    let e = serialized(Err("why".to_string())).err().unwrap();
    assert_eq!(e.kind, ErrorKind::InternalError);
    assert_eq!(e.message, "serialize: why");
}
