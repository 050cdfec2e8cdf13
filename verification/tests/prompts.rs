use zotero_mcp::client::ZoteroClient;
use zotero_mcp::config::Config;
use zotero_mcp::error::ErrorKind;
use zotero_mcp::json::{Json, JsonObject};
use zotero_mcp::prompts::{
    get, get_item, list, render_context, require_string_arg, summarize_body, write_note_body,
    SUMMARIZE_PAPER, WRITE_PAPER_NOTE,
};
use zotero_mcp::types::{Creator, ItemData, Tag, ZoteroItem};

fn sample_item() -> ZoteroItem {
    let mut extra = JsonObject::new();
    extra.insert("DOI".into(), Json::text("10.0000/example.aaaa1111"));
    ZoteroItem {
        key: "ABCD1234".into(),
        version: 1,
        data: ItemData {
            key: "ABCD1234".into(),
            version: Some(1),
            title: Some("Sampling-Based MPC for UAVs".into()),
            item_type: Some("journalArticle".into()),
            date: Some("2024".into()),
            abstract_note: Some("We propose a sampling-based MPC scheme.".into()),
            creators: vec![Creator {
                creator_type: Some("author".into()),
                first_name: Some("Alice".into()),
                last_name: Some("Anderson".into()),
                name: None,
            }],
            tags: vec![Tag { tag: "MPPI".into() }],
            collections: vec![],
            doi: None,
            url: None,
            extra,
        },
    }
}

#[test]
fn list_advertises_both_prompts() {
    let p = list();
    let names: Vec<&str> = p.iter().map(|x| x.name.as_str()).collect();
    assert!(names.contains(&SUMMARIZE_PAPER));
    assert!(names.contains(&WRITE_PAPER_NOTE));
    for prompt in &p {
        let args = prompt.arguments.as_ref().expect("arguments");
        assert_eq!(args.len(), 1);
        assert_eq!(args[0].name, "key");
        assert_eq!(args[0].required, Some(true));
    }
}

#[test]
fn require_string_arg_rejects_missing() {
    let err = require_string_arg(None, "key").unwrap_err();
    assert!(err.message.contains("missing required argument"));
    assert_eq!(err.kind, ErrorKind::InvalidParams);
}

#[test]
fn require_string_arg_rejects_empty() {
    let mut o = JsonObject::new();
    o.insert("key".into(), Json::text(""));
    let err = require_string_arg(Some(&o), "key").unwrap_err();
    assert!(err.message.contains("must not be empty"));
}

#[test]
fn require_string_arg_rejects_non_string() {
    let mut o = JsonObject::new();
    o.insert("key".into(), Json::Unsigned(42));
    let err = require_string_arg(Some(&o), "key").unwrap_err();
    assert!(err.message.contains("must be a string"));
}

#[test]
fn require_string_arg_takes_a_text() {
    let mut o = JsonObject::new();
    o.insert("key".into(), Json::text("ABCD1234"));
    assert_eq!(require_string_arg(Some(&o), "key").unwrap(), "ABCD1234");
    assert_eq!(
        require_string_arg(Some(&o), "name").unwrap_err().message,
        "missing required argument: name"
    );
}

#[test]
fn render_context_includes_fields() {
    let ctx = render_context(&sample_item());
    assert!(ctx.contains("Key: ABCD1234"));
    assert!(ctx.contains("Title: Sampling-Based MPC for UAVs"));
    assert!(ctx.contains("Authors: Anderson, Alice"));
    assert!(ctx.contains("Date: 2024"));
    assert!(ctx.contains("Type: journalArticle"));
    assert!(ctx.contains("DOI: 10.0000/example.aaaa1111"));
    assert!(ctx.contains("Tags: MPPI"));
    assert!(ctx.contains("Abstract:"));
    assert!(ctx.contains("sampling-based MPC scheme"));
}

#[test]
fn render_context_in_order() {
    assert_eq!(
        render_context(&sample_item()),
        "Key: ABCD1234\nTitle: Sampling-Based MPC for UAVs\nAuthors: Anderson, Alice\nDate: 2024\n\
         Type: journalArticle\nDOI: 10.0000/example.aaaa1111\nTags: MPPI\n\nAbstract:\n\
         We propose a sampling-based MPC scheme.\n"
    );
}

#[test]
fn render_context_of_many_values() {
    let mut item = sample_item();
    item.data.creators.push(Creator {
        creator_type: Some("author".into()),
        first_name: None,
        last_name: None,
        name: Some("IEEE".into()),
    });
    item.data.tags.push(Tag { tag: "UAV".into() });
    item.data.doi = Some("".into());
    item.data.url = Some("http://x".into());
    item.data.abstract_note = Some("".into());
    assert_eq!(
        render_context(&item),
        "Key: ABCD1234\nTitle: Sampling-Based MPC for UAVs\nAuthors: Anderson, Alice; IEEE\n\
         Date: 2024\nType: journalArticle\nURL: http://x\nTags: MPPI, UAV\n"
    );
}

#[test]
fn render_context_of_a_bare_item() {
    let item = ZoteroItem {
        key: "K".into(),
        version: 0,
        data: ItemData {
            key: "K".into(),
            version: None,
            title: None,
            item_type: None,
            date: None,
            abstract_note: None,
            creators: vec![],
            tags: vec![],
            collections: vec![],
            doi: None,
            url: Some("".into()),
            extra: JsonObject::new(),
        },
    };
    assert_eq!(render_context(&item), "Key: K\n");
}

#[test]
fn summarize_body_includes_context_and_instruction() {
    let ctx = render_context(&sample_item());
    let body = summarize_body(&ctx);
    assert!(body.contains("Sampling-Based MPC for UAVs"));
    assert!(body.contains("concise summary"));
}

#[test]
fn write_note_body_lists_required_sections() {
    let ctx = render_context(&sample_item());
    let body = write_note_body("ABCD1234", &ctx);
    for sec in [
        "## Key Claim",
        "## Problem Statement",
        "## Method",
        "## Relevance to Our Work",
        "## Key References",
    ] {
        assert!(body.contains(sec), "missing section {sec}");
    }
    assert!(body.contains("zotero_key: ABCD1234"));
    assert!(body.contains("[[Paper note]]"));
}

#[test]
fn bodies_word_by_word() {
    assert_eq!(
        summarize_body("CONTEXT"),
        "You are summarizing an academic paper from its Zotero metadata and abstract. Produce a \
         concise summary (3-6 sentences) that covers: the problem the paper tackles, the core \
         method or contribution, and the headline result. Stay faithful to the abstract -- do not \
         invent results that are not stated.\n\n--- Paper metadata ---\nCONTEXT"
    );
    assert_eq!(
        write_note_body("KEY", "CONTEXT"),
        "Draft a vault-compliant paper note in Obsidian Flavored Markdown for the Zotero item \
         below. The note must follow this structure exactly:\n\n1. YAML frontmatter with at least \
         `zotero_key: KEY` and `topics:` listing `\"[[Paper note]]\"` plus any relevant topic \
         wikilinks (use existing topics when obvious from the metadata; otherwise invent \
         reasonable ones).\n2. A first-level heading with the paper title.\n3. The following \
         second-level headings, in this order, populated from the abstract and metadata (do NOT \
         fabricate facts beyond what's given -- if a section can't be answered from the provided \
         data, write a single sentence noting that and a TODO):\n- `## Key Claim`\n- `## Problem \
         Statement`\n- `## Method`\n- `## Relevance to Our Work`\n- `## Key References`\n\nKeep \
         prose tight (1-3 short paragraphs per section) and prefer wikilinks (`[[concept]]`) over \
         inline definitions for domain terms.\n\n--- Paper metadata ---\nCONTEXT"
    );
}

#[test]
fn a_prompt_asks_for_its_item() {
    let client = ZoteroClient::new(&Config::default()).unwrap();
    let mut o = JsonObject::new();
    o.insert("key".into(), Json::text("ABCD1234"));
    let (key, request) = get_item(&client, Some(&o)).unwrap();
    assert_eq!(key, "ABCD1234");
    assert_eq!(request.url, "http://localhost:23119/api/users/0/items/ABCD1234?v=3");
    assert_eq!(
        get_item(&client, None).err().unwrap().message,
        "missing required argument: key"
    );
}

#[test]
fn a_prompt_is_answered_with_one_message() {
    let item = sample_item();
    let context = render_context(&item);
    let p = get(SUMMARIZE_PAPER, "ABCD1234", &item).unwrap();
    assert_eq!(p.description.as_deref(), Some("Summarize Zotero item ABCD1234"));
    assert_eq!(p.message, summarize_body(&context));
    let p = get(WRITE_PAPER_NOTE, "ABCD1234", &item).unwrap();
    assert_eq!(p.description.as_deref(), Some("Draft a paper note for Zotero item ABCD1234"));
    assert_eq!(p.message, write_note_body("ABCD1234", &context));
    let e = get("sing", "ABCD1234", &item).err().unwrap();
    assert_eq!(e.kind, ErrorKind::InvalidParams);
    assert_eq!(e.message, "unknown prompt: sing");
}
