use std::path::PathBuf;

use zotero_mcp::children::{attachments, filter_annotations, filter_notes, is_pdf, is_type, key_of};
use zotero_mcp::json::Json;

fn sample_children() -> Vec<Json> {
    let text = r##"[
        {
            "key": "ANN1KEY1",
            "data": {
                "itemType": "annotation",
                "parentItem": "PARENT01",
                "annotationType": "highlight",
                "annotationText": "key insight",
                "annotationComment": "important",
                "annotationPageLabel": "12",
                "annotationColor": "#ffd400"
            }
        },
        {
            "key": "ANN2KEY2",
            "data": {
                "itemType": "annotation",
                "parentItem": "PARENT01",
                "annotationType": "note",
                "annotationComment": "margin remark",
                "annotationPageLabel": "13",
                "annotationColor": "#5fb236"
            }
        },
        {
            "key": "NOTE1KEY",
            "data": {
                "itemType": "note",
                "parentItem": "PARENT01",
                "note": "<p>standalone child note</p>"
            }
        },
        {
            "key": "ATTACHKY",
            "data": {
                "itemType": "attachment",
                "parentItem": "PARENT01",
                "contentType": "application/pdf",
                "filename": "paper.pdf"
            }
        }
    ]"##;
    Json::parse(text).unwrap().as_array().unwrap().clone()
}

fn text<'a>(j: &'a Json, key: &str) -> Option<&'a str> {
    j.get(key).and_then(|v| v.as_str())
}

#[test]
fn compact_annotations_filters_and_shapes() {
    let children = sample_children();
    let out = filter_annotations(&children);
    assert_eq!(out.len(), 2);

    let a = &out[0];
    assert_eq!(text(a, "key"), Some("ANN1KEY1"));
    assert_eq!(text(a, "type"), Some("highlight"));
    assert_eq!(text(a, "text"), Some("key insight"));
    assert_eq!(text(a, "comment"), Some("important"));
    assert_eq!(text(a, "page_label"), Some("12"));
    assert_eq!(text(a, "color"), Some("#ffd400"));

    let b = &out[1];
    assert_eq!(text(b, "key"), Some("ANN2KEY2"));
    assert_eq!(text(b, "type"), Some("note"));
    /* annotation with no annotationText still produces an entry */
    assert!(b.get("text").is_some());
    assert_eq!(text(b, "text"), Some(""));
    assert_eq!(text(b, "comment"), Some("margin remark"));
}

#[test]
fn compact_notes_filters_and_shapes() {
    let children = sample_children();
    let out = filter_notes(&children);
    assert_eq!(out.len(), 1);
    let n = &out[0];
    assert_eq!(text(n, "key"), Some("NOTE1KEY"));
    assert_eq!(text(n, "note"), Some("<p>standalone child note</p>"));
    assert_eq!(text(n, "parent_item"), Some("PARENT01"));
}

#[test]
fn compact_annotations_skips_non_annotations() {
    let children = sample_children();
    let out = filter_annotations(&children);
    for entry in &out {
        assert_ne!(text(entry, "key"), Some("NOTE1KEY"));
        assert_ne!(text(entry, "key"), Some("ATTACHKY"));
    }
}

#[test]
fn records_keep_values_that_are_no_texts() {
    let children = Json::parse(
        "[{\"data\":{\"itemType\":\"note\",\"note\":null,\"parentItem\":false}}, {\"key\":\"X\"}, 5]",
    )
    .unwrap();
    let notes = filter_notes(children.as_array().unwrap());
    assert_eq!(notes.len(), 1);
    assert_eq!(notes[0].to_text(), "{\"key\":\"\",\"note\":null,\"parent_item\":false}");
    assert!(filter_annotations(children.as_array().unwrap()).is_empty());
}

#[test]
fn attachments_have_paths() {
    let found = attachments(&sample_children());
    assert_eq!(found.len(), 1);
    let storage = PathBuf::from("/home/me/Zotero/storage");
    let file = found[0].file(storage.clone());
    assert_eq!(file.base, Some(storage.clone()));
    assert_eq!(file.parts, vec!["ATTACHKY", "paper.pdf"]);
    let path = file.to_path();
    assert_eq!(path, storage.join("ATTACHKY").join("paper.pdf"));

    let record = found[0].to_json(&path, true);
    assert_eq!(text(&record, "path"), path.to_str());
    assert_eq!(text(&record, "key"), Some("ATTACHKY"));
    assert_eq!(found[0].to_json(&path, false).get("exists").unwrap().to_text(), "false");
    assert_eq!(
        found[0].record("/s/ATTACHKY/paper.pdf", true).to_text(),
        "{\"content_type\":\"application/pdf\",\"exists\":true,\"filename\":\"paper.pdf\",\
         \"key\":\"ATTACHKY\",\"path\":\"/s/ATTACHKY/paper.pdf\"}"
    );
}

#[test]
fn attachments_without_fields_have_empty_ones() {
    let children =
        Json::parse("[{\"key\":7,\"data\":{\"itemType\":\"attachment\",\"contentType\":1}}]").unwrap();
    let found = attachments(children.as_array().unwrap());
    assert_eq!(found[0].key, "");
    assert_eq!(found[0].filename, "");
    assert_eq!(found[0].content_type, "");
    let storage = PathBuf::from("/s");
    assert_eq!(found[0].file(storage.clone()).to_path(), storage.join("").join(""));
}

#[test]
fn an_absolute_file_name_stands_alone() {
    let children = Json::parse(
        "[{\"key\":\"K\",\"data\":{\"itemType\":\"attachment\",\"filename\":\"/etc/x\"}}]",
    )
    .unwrap();
    let found = attachments(children.as_array().unwrap());
    let storage = PathBuf::from("/s");
    let path = found[0].file(storage.clone()).to_path();
    assert_eq!(path, storage.join("K").join("/etc/x"));
}

#[test]
fn children_tell_their_type() {
    let children = sample_children();
    assert!(is_type(&children[2], "note"));
    assert!(!is_type(&children[2], "attachment"));
    assert!(is_pdf(&children[3]));
    assert!(!is_pdf(&children[2]));
    assert_eq!(key_of(&children[3]), Some("ATTACHKY"));
    assert_eq!(key_of(&Json::Null), None);
}
