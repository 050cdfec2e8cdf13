use zotero_mcp::client::ClientError;
use zotero_mcp::error::ErrorKind;
use zotero_mcp::json::{Json, JsonObject};
use zotero_mcp::merge_flow::{merge_start, merge_step, MergeAction, MergeEvent};
use zotero_mcp::tools::MergeArgs;
use zotero_mcp::types::{ItemData, Tag, ZoteroItem};

fn make_item(key: &str, version: u64) -> ZoteroItem {
    ZoteroItem {
        key: key.into(),
        version,
        data: ItemData {
            key: key.into(),
            version: Some(version),
            title: None,
            item_type: Some("book".into()),
            date: None,
            abstract_note: None,
            creators: vec![],
            tags: vec![],
            collections: vec![],
            doi: None,
            url: None,
            extra: JsonObject::new(),
        },
    }
}

fn args(dry_run: bool, keep: Option<&str>) -> MergeArgs {
    MergeArgs {
        key1: "AAA".into(),
        key2: "BBB".into(),
        dry_run,
        keep: keep.map(|k| k.to_string()),
        library: None,
    }
}

/* Runs a merge against a library that answers with the given items and children; returns
what was asked for. */
fn run(args: MergeArgs, item: &dyn Fn(&str) -> ZoteroItem, children: &str) -> Vec<String> {
    run_refused(args, item, children, usize::MAX - 1)
}

/* The same against a library that refuses one request. */
fn run_refused(
    args: MergeArgs,
    item: &dyn Fn(&str) -> ZoteroItem,
    children: &str,
    refused: usize,
) -> Vec<String> {
    let mut log: Vec<String> = vec![];
    let (mut state, mut action) = merge_start(&args).unwrap();
    loop {
        let event = match action {
            MergeAction::GetItem { key } => {
                log.push(format!("get {key}"));
                MergeEvent::Item { item: item(&key) }
            }
            MergeAction::GetChildren { key } => {
                log.push(format!("children {key}"));
                MergeEvent::Children {
                    children: Json::parse(children).unwrap().as_array().unwrap().clone(),
                }
            }
            MergeAction::PatchItem { key, version, data } => {
                let tags = data.get("tags").map(|t| t.to_text());
                log.push(format!("patch {key} {version} {}", tags.unwrap_or(data.to_text())));
                MergeEvent::Written
            }
            MergeAction::TrashItem { key, version } => {
                log.push(format!("trash {key} {version}"));
                MergeEvent::Written
            }
            MergeAction::Done { text } => {
                log.push(text);
                return log;
            }
            MergeAction::Fail { error } => {
                assert_eq!(error.kind, ErrorKind::InternalError);
                log.push(format!("error: {}", error.message));
                return log;
            }
            MergeAction::Unprintable => {
                log.push("unprintable".to_string());
                return log;
            }
        };
        let event = if log.len() == refused + 1 {
            MergeEvent::Refused { error: ClientError::VersionConflict }
        } else {
            event
        };
        let next = merge_step(state, event);
        state = next.0;
        action = next.1;
    }
}

fn plain(key: &str) -> ZoteroItem {
    let mut item = make_item(key, if key == "AAA" { 3 } else { 4 });
    item.data.tags = vec![Tag { tag: key.into() }];
    item
}

const CHILDREN: &str = "[{\"key\":\"C1\",\"version\":11},{\"key\":\"C2\",\"version\":12}]";

#[test]
fn a_merge_from_start_to_end() {
    assert_eq!(
        run(args(false, None), &plain, CHILDREN),
        vec![
            "get AAA",
            "get BBB",
            "children BBB",
            "patch AAA 3 [{\"tag\":\"AAA\"},{\"tag\":\"BBB\"}]",
            "patch C1 11 {\"parentItem\":\"AAA\"}",
            "patch C2 12 {\"parentItem\":\"AAA\"}",
            "get BBB",
            "trash BBB 4",
            "merged BBB into AAA (2 child item(s) re-parented; source moved to trash)",
        ]
    );
}

#[test]
fn the_second_item_can_be_kept() {
    let log = run(args(false, Some("BBB")), &plain, "[]");
    assert_eq!(log[0], "get BBB");
    assert_eq!(log[1], "get AAA");
    assert_eq!(log[5], "trash AAA 3");
    assert_eq!(
        log[6],
        "merged AAA into BBB (0 child item(s) re-parented; source moved to trash)"
    );
    assert_eq!(run(args(false, Some("AAA")), &plain, "[]")[0], "get AAA");
}

#[test]
fn another_item_cannot_be_kept() {
    let e = merge_start(&args(false, Some("CCC"))).err().unwrap();
    assert_eq!(e.kind, ErrorKind::InternalError);
    assert_eq!(e.message, "'keep' must equal key1 or key2");
}

#[test]
fn a_dry_run_only_reads() {
    let log = run(args(true, None), &plain, CHILDREN);
    assert_eq!(log[..3], ["get AAA", "get BBB", "children BBB"]);
    assert_eq!(
        log[3..],
        ["target: AAA -- (untitled)\nsource: BBB -- (untitled)\n\nfields: no changes\n\
          tags added: BBB\nchildren to re-parent: 2\n\nsource BBB will be moved to trash"]
    );
}

#[test]
fn child_items_are_not_merged() {
    for kind in ["attachment", "note", "annotation"] {
        let odd = |key: &str| {
            let mut item = plain(key);
            if key == "BBB" {
                item.data.item_type = Some(kind.to_string());
            }
            item
        };
        assert_eq!(
            run(args(false, None), &odd, CHILDREN),
            vec![
                "get AAA".to_string(),
                "get BBB".to_string(),
                format!("error: source (BBB) is a {kind} -- only top-level items can be merged"),
            ]
        );
        assert_eq!(
            run(args(true, Some("BBB")), &odd, CHILDREN)[2],
            format!("error: target (BBB) is a {kind} -- only top-level items can be merged")
        );
    }
}

#[test]
fn the_source_stays_while_a_child_cannot_be_moved() {
    let log = run(args(false, None), &plain, "[{\"key\":\"C1\",\"version\":1},{\"version\":2}]");
    assert_eq!(log[4..], ["patch C1 1 {\"parentItem\":\"AAA\"}", "error: child missing key"]);
    let log = run(args(false, None), &plain, "[{\"key\":\"C1\",\"version\":-1}]");
    assert_eq!(log[4..], ["error: child missing version"]);
}

#[test]
fn a_refused_request_ends_the_merge() {
    let whole = run(args(false, None), &plain, CHILDREN);
    for refused in 0..8 {
        let log = run_refused(args(false, None), &plain, CHILDREN, refused);
        assert_eq!(log.len(), refused + 2);
        assert_eq!(log[..refused + 1], whole[..refused + 1]);
        assert_eq!(
            log[refused + 1],
            "error: item was modified since it was retrieved (version conflict) -- retry"
        );
    }
}

#[test]
fn a_preview_that_cannot_be_printed() {
    let wide = |key: &str| {
        let mut item = plain(key);
        if key == "BBB" {
            item.data.title = Some("é".repeat(40));
        }
        item
    };
    assert_eq!(run(args(true, None), &wide, "[]")[3], "unprintable");
}
