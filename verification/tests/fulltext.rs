use zotero_mcp::client::ClientError;
use zotero_mcp::error::{ErrorKind, McpError};
use zotero_mcp::fulltext::{
    fulltext_answer, fulltext_candidates, fulltext_start, fulltext_step, no_fulltext_error, FulltextAction,
    FulltextEvent,
};
use zotero_mcp::json::Json;
use zotero_mcp::types::FullText;

fn text_of(content: &str) -> FullText {
    FullText {
        content: content.to_string(),
        indexed_chars: 1,
        total_chars: 2,
        indexed_pages: 0,
        total_pages: 0,
    }
}

fn children(text: &str) -> Vec<Json> {
    Json::parse(text).unwrap().as_array().unwrap().clone()
}

const TWO_ATTACHMENTS: &str = r#"[
    {"key": "NOTE", "data": {"itemType": "note", "contentType": "application/pdf"}},
    {"key": "HTML", "data": {"itemType": "attachment", "contentType": "text/html"}},
    {"key": "PDF1", "data": {"itemType": "attachment", "contentType": "application/pdf"}},
    {"key": "PDF2", "data": {"itemType": "attachment", "contentType": "application/pdf"}}
]"#;

/* Runs a search against a library in which the given keys have a text and requests for the
refused ones fail; returns what was asked for and the answer. */
fn answer(
    key: &str,
    with_text: &[&str],
    refused: &[&str],
    list: &str,
) -> (Vec<String>, Result<FullText, McpError>) {
    let mut asked: Vec<String> = vec![];
    let (mut state, mut action) = fulltext_start(key);
    loop {
        let (question, event) = match action {
            FulltextAction::GetFulltext { key } => {
                let text = if with_text.contains(&key.as_str()) { Some(text_of(&key)) } else { None };
                (key, FulltextEvent::Text { text })
            }
            FulltextAction::GetChildren { key } => (
                format!("children of {key}"),
                FulltextEvent::Children { children: children(list) },
            ),
            end => return (asked, fulltext_answer(key, end)),
        };
        let event = if refused.contains(&question.as_str()) {
            FulltextEvent::Refused {
                error: ClientError::Api { status: 500, body: question.clone() },
            }
        } else {
            event
        };
        asked.push(question);
        let next = fulltext_step(state, event);
        state = next.0;
        action = next.1;
    }
}

fn search(key: &str, with_text: &[&str], list: &str) -> (Vec<String>, Option<String>) {
    let (asked, found) = answer(key, with_text, &[], list);
    match found {
        Ok(text) => (asked, Some(text.content)),
        Err(e) => {
            assert_eq!(e.message, no_fulltext_error(key).message);
            (asked, None)
        }
    }
}

#[test]
fn a_failed_request_ends_the_search() {
    for (refused, count) in [("ITEM", 1), ("children of ITEM", 2), ("PDF1", 3), ("HTML", 4)] {
        let (asked, found) = answer("ITEM", &[], &[refused], TWO_ATTACHMENTS);
        assert_eq!(asked.len(), count);
        let e = found.err().unwrap();
        assert_eq!(e.kind, ErrorKind::InternalError);
        assert_eq!(e.message, format!("Zotero API error 500: {refused}"));
    }
    let (_, found) = answer("ITEM", &["PDF1"], &["HTML"], TWO_ATTACHMENTS);
    assert_eq!(found.ok().unwrap().content, "PDF1");
}

#[test]
fn the_item_itself_comes_first() {
    let (asked, found) = search("ITEM", &["ITEM", "PDF1"], TWO_ATTACHMENTS);
    assert_eq!(asked, vec!["ITEM"]);
    assert_eq!(found.as_deref(), Some("ITEM"));
}

#[test]
fn a_pdf_comes_before_other_attachments() {
    let (asked, found) = search("ITEM", &["PDF1", "HTML"], TWO_ATTACHMENTS);
    assert_eq!(asked, vec!["ITEM", "children of ITEM", "PDF1"]);
    assert_eq!(found.as_deref(), Some("PDF1"));
}

#[test]
fn the_first_attachment_comes_last() {
    let (asked, found) = search("ITEM", &["HTML", "PDF2"], TWO_ATTACHMENTS);
    assert_eq!(asked, vec!["ITEM", "children of ITEM", "PDF1", "HTML"]);
    assert_eq!(found.as_deref(), Some("HTML"));
}

#[test]
fn nothing_is_found_where_no_candidate_has_a_text() {
    let (asked, found) = search("ITEM", &["PDF2", "NOTE"], TWO_ATTACHMENTS);
    assert_eq!(asked, vec!["ITEM", "children of ITEM", "PDF1", "HTML"]);
    assert_eq!(found, None);
    let (asked, found) = search("ITEM", &[], "[]");
    assert_eq!(asked, vec!["ITEM", "children of ITEM"]);
    assert_eq!(found, None);
}

#[test]
fn candidates_are_the_first_pdf_and_the_first_attachment() {
    assert_eq!(fulltext_candidates(&children(TWO_ATTACHMENTS)), vec!["PDF1", "HTML"]);
    let pdf = r#"[{"key": "P", "data": {"itemType": "attachment", "contentType": "application/pdf"}}]"#;
    assert_eq!(fulltext_candidates(&children(pdf)), vec!["P", "P"]);
    let nameless = r#"[{"data": {"itemType": "attachment"}}, {"key": "A", "data": {"itemType": "attachment"}}]"#;
    assert!(fulltext_candidates(&children(nameless)).is_empty());
}

#[test]
fn a_missing_text_is_an_error_in_the_request() {
    let e = no_fulltext_error("ITEM");
    assert_eq!(e.kind, ErrorKind::InvalidParams);
    assert_eq!(
        e.message,
        "item ITEM has no indexed attachment fulltext (Zotero may need to (re)index it)"
    );
}
