//! Laws of the prompts.

use crate::client::{Request, ZoteroClient};
use crate::error::{ErrorKind, McpError};
use crate::json::{lookup, JsonObject, JsonView};
use crate::laws::client::{asks_for, lemma_asks_for};
use crate::prompts::{
    get, get_item, list, render_context, require_string_arg, summarize_body, write_note_body,
    GetPromptResult, Prompt,
};
use crate::text::joined;
use crate::types::{author_names, tag_names, ItemData, ZoteroItem};
use vstd::prelude::*;
use vstd::string::*;

verus! {

/// Whether an outcome is an error in the request that says a text.
pub open spec fn refused<T>(r: Result<T, McpError>, message: Seq<char>) -> bool {
    r is Err && r->Err_0.kind == ErrorKind::InvalidParams && r->Err_0.message@ == message
}

/// An argument must be there, be a text and have characters; it is then what the request
/// gives.
pub proof fn law_argument(arguments: Option<&JsonObject>, key: &str, r: Result<String, McpError>)
    requires
        call_ensures(require_string_arg, (arguments, key), r),
    ensures
        arguments is None ==> refused(r, "missing required argument: "@ + key@),
        arguments is Some ==> match lookup(arguments->0@, key@) {
            None => refused(r, "missing required argument: "@ + key@),
            Some(JsonView::Text(t)) => if t == Seq::<char>::empty() {
                refused(r, "argument "@ + key@ + " must not be empty"@)
            } else {
                r is Ok && r->Ok_0@ == t
            },
            Some(_) => refused(r, "argument "@ + key@ + " must be a string"@),
        },
{
    if let Some(a) = arguments {
        if let Some(JsonView::Text(t)) = lookup(a@, key@) {
            if t.len() == 0 {
                assert(t =~= Seq::empty());
            }
        }
    }
}

/// A request for a prompt asks for the item whose key it gives; without a proper key it
/// is refused.
pub proof fn law_prompt_item(
    client: &ZoteroClient,
    arguments: Option<&JsonObject>,
    r: Result<(String, Request), McpError>,
)
    requires
        call_ensures(get_item, (client, arguments), r),
    ensures
        arguments is None ==> refused(r, "missing required argument: key"@),
        arguments is Some ==> match lookup(arguments->0@, "key"@) {
            None => refused(r, "missing required argument: key"@),
            Some(JsonView::Text(t)) => if t == Seq::<char>::empty() {
                refused(r, "argument key must not be empty"@)
            } else {
                &&& r is Ok
                &&& r->Ok_0.0@ == t
                &&& asks_for(client@, r->Ok_0.1, "/items/"@ + t + "?v=3"@)
            },
            Some(_) => refused(r, "argument key must be a string"@),
        },
{
    reveal_strlit("missing required argument: ");
    reveal_strlit("key");
    reveal_strlit("missing required argument: key");
    reveal_strlit("argument ");
    reveal_strlit(" must not be empty");
    reveal_strlit("argument key must not be empty");
    reveal_strlit(" must be a string");
    reveal_strlit("argument key must be a string");
    reveal_strlit("?v=");
    reveal_strlit("3");
    reveal_strlit("?v=3");
    assert("missing required argument: "@ + "key"@ =~= "missing required argument: key"@);
    assert("argument "@ + "key"@ + " must not be empty"@ =~= "argument key must not be empty"@);
    assert("argument "@ + "key"@ + " must be a string"@ =~= "argument key must be a string"@);
    if let Some(a) = arguments {
        if let Some(JsonView::Text(t)) = lookup(a@, "key"@) {
            if t.len() == 0 {
                assert(t =~= Seq::empty());
            } else {
                let path = "/items/"@ + t + "?v=3"@;
                assert("?v="@ + "3"@ =~= "?v=3"@);
                assert("/items/"@ + t + "?v="@ + "3"@ =~= path);
                lemma_asks_for(client@, r->Ok_0.1, path);
            }
        }
    }
}

/// A line with a label where there is a value.
pub open spec fn labelled(label: Seq<char>, value: Option<String>) -> Seq<char> {
    if value is Some {
        label + value->0@ + "\n"@
    } else {
        Seq::empty()
    }
}

/// A line with a label where there is a value with characters.
pub open spec fn labelled_text(label: Seq<char>, value: Seq<char>) -> Seq<char> {
    if value.len() > 0 {
        label + value + "\n"@
    } else {
        Seq::empty()
    }
}

/// A line with a label and several values where there are any.
pub open spec fn labelled_list(
    label: Seq<char>,
    values: Seq<Seq<char>>,
    sep: Seq<char>,
) -> Seq<char> {
    if values.len() > 0 {
        label + joined(values, sep) + "\n"@
    } else {
        Seq::empty()
    }
}

/// The DOI of an item: that under `doi`, else the text that the API gives under `DOI`,
/// else none.
pub open spec fn doi_text(d: ItemData) -> Seq<char> {
    if d.doi is Some {
        d.doi->0@
    } else {
        match lookup(d.extra@, "DOI"@) {
            Some(JsonView::Text(t)) => t,
            _ => Seq::empty(),
        }
    }
}

/// The text of an optional string, or none.
pub open spec fn text_or_none(t: Option<String>) -> Seq<char> {
    if t is Some {
        t->0@
    } else {
        Seq::empty()
    }
}

/// What a prompt says of an item, line by line: its key, title, authors, date, type, DOI,
/// web address and tags, and its abstract under a heading of its own, whole. What is
/// missing has no line; of the DOI, the address and the abstract also what is empty.
pub open spec fn describes(item: ZoteroItem) -> Seq<char> {
    let d = item.data;
    "Key: "@ + item.key@ + "\n"@ + labelled("Title: "@, d.title) + labelled_list(
        "Authors: "@,
        author_names(d.creators@),
        "; "@,
    ) + labelled("Date: "@, d.date) + labelled("Type: "@, d.item_type) + labelled_text(
        "DOI: "@,
        doi_text(d),
    ) + labelled_text("URL: "@, text_or_none(d.url)) + labelled_list(
        "Tags: "@,
        tag_names(d.tags@),
        ", "@,
    ) + labelled_text("\nAbstract:\n"@, text_or_none(d.abstract_note))
}

/// What a prompt says of an item.
pub proof fn law_context(item: &ZoteroItem, r: String)
    requires
        call_ensures(render_context, (item,), r),
    ensures
        r@ == describes(*item),
{
    lemma_context(*item);
}

proof fn lemma_context(item: ZoteroItem)
    ensures
        crate::prompts::context(item) == describes(item),
{
    let d = item.data;
    assert(d.title.deep_view() is Some <==> d.title is Some);
    assert(d.date.deep_view() is Some <==> d.date is Some);
    assert(d.item_type.deep_view() is Some <==> d.item_type is Some);
    assert(d.url.deep_view() is Some <==> d.url is Some);
    assert(d.abstract_note.deep_view() is Some <==> d.abstract_note is Some);
    assert(crate::prompts::line_if("Title: "@, d.title.deep_view()) == labelled(
        "Title: "@,
        d.title,
    ));
    assert(crate::prompts::line_if("Date: "@, d.date.deep_view()) == labelled("Date: "@, d.date));
    assert(crate::prompts::line_if("Type: "@, d.item_type.deep_view()) == labelled(
        "Type: "@,
        d.item_type,
    ));
    assert(crate::prompts::line_if_any("DOI: "@, crate::prompts::doi_of(d)) == labelled_text(
        "DOI: "@,
        doi_text(d),
    ));
    assert(crate::prompts::line_if_any("URL: "@, d.url.deep_view()) == labelled_text(
        "URL: "@,
        text_or_none(d.url),
    ));
    assert(crate::prompts::abstract_part(d.abstract_note.deep_view()) == labelled_text(
        "\nAbstract:\n"@,
        text_or_none(d.abstract_note),
    ));
}

/// The two prompts of the server. Each takes the key of an item and needs it.
pub proof fn law_list(r: Vec<Prompt>)
    requires
        call_ensures(list, (), r),
    ensures
        r@.len() == 2,
        r@[0].name@ == "summarize_paper"@,
        r@[1].name@ == "write_paper_note"@,
        forall|i: int|
            #![trigger r@[i]]
            0 <= i < 2 ==> {
                &&& r@[i].arguments is Some
                &&& r@[i].arguments->0@.len() == 1
                &&& r@[i].arguments->0@[0].name@ == "key"@
                &&& r@[i].arguments->0@[0].required == Some(true)
            },
{
    assert forall|i: int|
        #![trigger r@[i]]
        0 <= i < 2 implies {
        &&& r@[i].arguments is Some
        &&& r@[i].arguments->0@.len() == 1
        &&& r@[i].arguments->0@[0].name@ == "key"@
        &&& r@[i].arguments->0@[0].required == Some(true)
    } by {
        assert(i == 0 || i == 1);
    }
}

/// The prompt for a summary is the task, which says what the summary must cover and that
/// it must stay with the abstract, and behind it what is said of the item.
pub proof fn law_summary(context: &str, r: String)
    requires
        call_ensures(summarize_body, (context,), r),
    ensures
        r@ == "You are summarizing an academic paper from its Zotero metadata and abstract. \
Produce a concise summary (3-6 sentences) that covers: the problem the paper \
tackles, the core method or contribution, and the headline result. Stay \
faithful to the abstract -- do not invent results that are not stated.\n\
\n\
--- Paper metadata ---\n"@ + context@,
{
}

/// The prompt for a note is the task with the key of the item, the topics, the sections and
/// the style that a note must have, and behind it what is said of the item.
pub proof fn law_note(key: &str, context: &str, r: String)
    requires
        call_ensures(write_note_body, (key, context), r),
    ensures
        r@
            == "Draft a vault-compliant paper note in Obsidian Flavored Markdown for the Zotero \
item below. The note must follow this structure exactly:\n\
\n\
1. YAML frontmatter with at least `zotero_key: "@ + key@
            + "` and `topics:` listing `\"[[Paper note]]\"` plus any relevant topic wikilinks "@
            + "(use existing topics \
when obvious from the metadata; otherwise invent reasonable ones).\n\
2. A first-level heading with the paper title.\n\
3. The following second-level headings, in this order, populated from the \
abstract and metadata (do NOT fabricate facts beyond what's given -- if a \
section can't be answered from the provided data, write a single sentence \
noting that and a TODO):\n"@ + "- `## Key Claim`\n\
- `## Problem Statement`\n\
- `## Method`\n\
- `## Relevance to Our Work`\n\
- `## Key References`\n"@ + "\n\
Keep prose tight (1-3 short paragraphs per section) and prefer wikilinks \
(`[[concept]]`) over inline definitions for domain terms.\n\
\n\
--- Paper metadata ---\n"@ + context@,
{
}

/// A prompt is answered by its name: the summary, the note, and nothing else. The message
/// ends with what is said of the item, and the description names the key of the request.
pub proof fn law_prompt(
    name: &str,
    key: &str,
    item: &ZoteroItem,
    r: Result<GetPromptResult, McpError>,
    summary: String,
    note: String,
    context: &str,
)
    requires
        call_ensures(get, (name, key, item), r),
        context@ == describes(*item),
        call_ensures(summarize_body, (context,), summary),
        call_ensures(write_note_body, (key, context), note),
    ensures
        name@ == "summarize_paper"@ ==> {
            &&& r is Ok
            &&& r->Ok_0.message@ == summary@
            &&& r->Ok_0.description is Some
            &&& r->Ok_0.description->0@ == "Summarize Zotero item "@ + key@
        },
        name@ == "write_paper_note"@ ==> {
            &&& r is Ok
            &&& r->Ok_0.message@ == note@
            &&& r->Ok_0.description is Some
            &&& r->Ok_0.description->0@ == "Draft a paper note for Zotero item "@ + key@
        },
        name@ != "summarize_paper"@ && name@ != "write_paper_note"@ ==> refused(
            r,
            "unknown prompt: "@ + name@,
        ),
{
    lemma_context(*item);
    reveal_strlit("summarize_paper");
    reveal_strlit("write_paper_note");
    assert("summarize_paper"@.len() != "write_paper_note"@.len());
    if let Ok(p) = r {
        assert(p.description.deep_view() is Some <==> p.description is Some);
    }
}

} // verus!
