//! The prompts of the server: a summary of a paper and a note on a paper, both from
//! the metadata and the abstract of an item.

use crate::client::{Request, ZoteroClient};
use crate::error::{ErrorKind, McpError};
use crate::json::{lookup, text_of, Json, JsonObject, JsonView};
use crate::text::{before_suffix, join, joined, same_text, texts};
use crate::types::{author_names, authors, names_of_tags, tag_names, ItemData, ZoteroItem};
use vstd::prelude::*;
use vstd::string::*;

verus! {

/// The name of the prompt for a summary.
pub const SUMMARIZE_PAPER: &'static str = "summarize_paper";

/// The name of the prompt for a note.
pub const WRITE_PAPER_NOTE: &'static str = "write_paper_note";

/// A prompt that the server lists.
#[derive(Debug)]
pub struct Prompt {
    pub name: String,
    pub description: Option<String>,
    pub arguments: Option<Vec<PromptArgument>>,
}

/// An argument of a prompt.
#[derive(Debug)]
pub struct PromptArgument {
    pub name: String,
    pub description: Option<String>,
    pub required: Option<bool>,
}

impl Prompt {
    /// Whether the prompt has a name, a description and the key of an item as its
    /// one argument.
    pub open spec fn takes_key(self, name: Seq<char>, description: Seq<char>) -> bool {
        &&& self.name@ == name
        &&& self.description.deep_view() == Some(description)
        &&& self.arguments matches Some(args)
        &&& args@.len() == 1
        &&& args@[0].name@ == "key"@
        &&& args@[0].description.deep_view() == Some("Zotero item key (8-character alphanumeric)"@)
        &&& args@[0].required == Some(true)
    }
}

fn key_prompt(name: &str, description: &str) -> (r: Prompt)
    ensures
        r.takes_key(name@, description@),
{
    let mut arguments: Vec<PromptArgument> = Vec::new();
    arguments.push(
        PromptArgument {
            name: "key".to_owned(),
            description: Some("Zotero item key (8-character alphanumeric)".to_owned()),
            required: Some(true),
        },
    );
    Prompt {
        name: name.to_owned(),
        description: Some(description.to_owned()),
        arguments: Some(arguments),
    }
}

/// The prompts of the server.
pub fn list() -> (r: Vec<Prompt>)
    ensures
        r@.len() == 2,
        r@[0].takes_key(
            SUMMARIZE_PAPER@,
            "Summarize a Zotero paper from its metadata and abstract."@,
        ),
        r@[1].takes_key(
            WRITE_PAPER_NOTE@,
            "Draft a vault-compliant paper note (Key Claim / Problem Statement / Method / Relevance to Our Work / Key References) for a Zotero item."@,
        ),
{
    let mut out: Vec<Prompt> = Vec::new();
    out.push(
        key_prompt(SUMMARIZE_PAPER, "Summarize a Zotero paper from its metadata and abstract."),
    );
    out.push(
        key_prompt(
            WRITE_PAPER_NOTE,
            "Draft a vault-compliant paper note (Key Claim / Problem Statement / Method / Relevance to Our Work / Key References) for a Zotero item.",
        ),
    );
    out
}

/// An argument of a request, where it is there.
pub open spec fn argument(arguments: Option<&JsonObject>, key: Seq<char>) -> Option<JsonView> {
    match arguments {
        Some(a) => lookup(a@, key),
        None => None,
    }
}

/// Whether the outcome is the text of an argument that must be a text and not
/// empty, or the error that says what is wrong with it.
pub open spec fn is_string_arg(
    value: Option<JsonView>,
    key: Seq<char>,
    r: Result<String, McpError>,
) -> bool {
    match value {
        None => r matches Err(e) && e.says(
            ErrorKind::InvalidParams,
            "missing required argument: "@ + key,
        ),
        Some(JsonView::Text(t)) => if t.len() > 0 {
            r matches Ok(s) && s@ == t
        } else {
            r matches Err(e) && e.says(
                ErrorKind::InvalidParams,
                "argument "@ + key + " must not be empty"@,
            )
        },
        Some(_) => r matches Err(e) && e.says(
            ErrorKind::InvalidParams,
            "argument "@ + key + " must be a string"@,
        ),
    }
}

/// Takes an argument that must be a text and not empty.
pub fn require_string_arg(arguments: Option<&JsonObject>, key: &str) -> (r: Result<
    String,
    McpError,
>)
    ensures
        is_string_arg(argument(arguments, key@), key@, r),
{
    let value = match arguments {
        Some(a) => a.get(key),
        None => None,
    };
    match value {
        None => {
            let mut message = "missing required argument: ".to_owned();
            message.append(key);
            Err(McpError::invalid_params(message))
        },
        Some(v) => {
            match v {
                Json::Text(t) => {
                    if !t.as_str().is_empty() {
                        Ok(t.clone())
                    } else {
                        Err(argument_error(key, " must not be empty"))
                    }
                },
                _ => Err(argument_error(key, " must be a string")),
            }
        },
    }
}

fn argument_error(key: &str, what: &str) -> (r: McpError)
    ensures
        r.says(ErrorKind::InvalidParams, "argument "@ + key@ + what@),
{
    let mut message = "argument ".to_owned();
    message.append(key);
    message.append(what);
    McpError::invalid_params(message)
}

/// A line of a label and a value.
pub open spec fn line(label: Seq<char>, value: Seq<char>) -> Seq<char> {
    label + value + "\n"@
}

/// A line, where there is a value.
pub open spec fn line_if(label: Seq<char>, value: Option<Seq<char>>) -> Seq<char> {
    match value {
        Some(v) => line(label, v),
        None => Seq::empty(),
    }
}

/// A line, where there is a value that is not empty.
pub open spec fn line_if_any(label: Seq<char>, value: Option<Seq<char>>) -> Seq<char> {
    match value {
        Some(v) => if v.len() > 0 {
            line(label, v)
        } else {
            Seq::empty()
        },
        None => Seq::empty(),
    }
}

/// A line of several values, where there are any.
pub open spec fn line_of(label: Seq<char>, values: Seq<Seq<char>>, sep: Seq<char>) -> Seq<char> {
    if values.len() > 0 {
        line(label, joined(values, sep))
    } else {
        Seq::empty()
    }
}

/// The DOI of an item: the declared field, else the text of the undeclared field
/// `DOI`, under which the API returns it.
pub open spec fn doi_of(d: ItemData) -> Option<Seq<char>> {
    match d.doi {
        Some(doi) => Some(doi@),
        None => match lookup(d.extra@, "DOI"@) {
            Some(v) => text_of(v),
            None => None,
        },
    }
}

/// The abstract under its heading, where it is not empty.
pub open spec fn abstract_part(text: Option<Seq<char>>) -> Seq<char> {
    match text {
        Some(t) => if t.len() > 0 {
            "\nAbstract:\n"@ + t + "\n"@
        } else {
            Seq::empty()
        },
        None => Seq::empty(),
    }
}

/// The metadata and the abstract of an item as a text.
pub open spec fn context(item: ZoteroItem) -> Seq<char> {
    let d = item.data;
    line("Key: "@, item.key@) + line_if("Title: "@, d.title.deep_view()) + line_of(
        "Authors: "@,
        author_names(d.creators@),
        "; "@,
    ) + line_if("Date: "@, d.date.deep_view()) + line_if("Type: "@, d.item_type.deep_view())
        + line_if_any("DOI: "@, doi_of(d)) + line_if_any("URL: "@, d.url.deep_view()) + line_of(
        "Tags: "@,
        tag_names(d.tags@),
        ", "@,
    ) + abstract_part(d.abstract_note.deep_view())
}

fn push_line(out: &mut String, label: &str, value: &str)
    ensures
        final(out)@ == old(out)@ + line(label@, value@),
{
    let ghost first = out@;
    out.append(label);
    out.append(value);
    out.append("\n");
    assert(out@ =~= first + line(label@, value@));
}

fn push_line_if(out: &mut String, label: &str, value: &Option<String>)
    ensures
        final(out)@ == old(out)@ + line_if(label@, value.deep_view()),
{
    let ghost first = out@;
    match value {
        Some(v) => push_line(out, label, v.as_str()),
        None => {
            assert(out@ =~= first + line_if(label@, value.deep_view()));
        },
    }
}

fn push_line_if_any(out: &mut String, label: &str, value: Option<&str>)
    ensures
        final(out)@ == old(out)@ + line_if_any(label@, value.deep_view()),
{
    let ghost first = out@;
    if let Some(v) = value {
        if !v.is_empty() {
            push_line(out, label, v);
            return;
        }
    }
    assert(out@ =~= first + line_if_any(label@, value.deep_view()));
}

fn push_line_of(out: &mut String, label: &str, values: &Vec<String>, sep: &str)
    ensures
        final(out)@ == old(out)@ + line_of(label@, texts(values@), sep@),
{
    let ghost first = out@;
    if values.len() > 0 {
        push_line(out, label, join(values, sep).as_str());
    } else {
        assert(out@ =~= first + line_of(label@, texts(values@), sep@));
    }
}

/// Writes the metadata and the abstract of an item as a text: key, title, authors,
/// date, type, identifiers, tags, then the abstract as it stands.
pub fn render_context(item: &ZoteroItem) -> (r: String)
    ensures
        r@ == context(*item),
{
    let d = &item.data;
    let mut out = String::new();
    push_line(&mut out, "Key: ", item.key.as_str());
    assert(out@ =~= line("Key: "@, item.key@));
    push_line_if(&mut out, "Title: ", &d.title);
    push_line_of(&mut out, "Authors: ", &authors(&d.creators), "; ");
    push_line_if(&mut out, "Date: ", &d.date);
    push_line_if(&mut out, "Type: ", &d.item_type);
    let doi: Option<&str> = match &d.doi {
        Some(doi) => Some(doi.as_str()),
        None => match d.extra.get("DOI") {
            Some(v) => v.as_str(),
            None => None,
        },
    };
    push_line_if_any(&mut out, "DOI: ", doi);
    let url: Option<&str> = match &d.url {
        Some(url) => Some(url.as_str()),
        None => None,
    };
    push_line_if_any(&mut out, "URL: ", url);
    push_line_of(&mut out, "Tags: ", &names_of_tags(&d.tags), ", ");
    let ghost first = out@;
    if let Some(text) = &d.abstract_note {
        if !text.as_str().is_empty() {
            out.append("\nAbstract:\n");
            out.append(text.as_str());
            out.append("\n");
        }
    }
    assert(out@ =~= first + abstract_part(d.abstract_note.deep_view()));
    out
}

/// What the prompt for a summary asks for.
pub const SUMMARY_TASK: &'static str = "You are summarizing an academic paper from its Zotero metadata and abstract. \
Produce a concise summary (3-6 sentences) that covers: the problem the paper \
tackles, the core method or contribution, and the headline result. Stay \
faithful to the abstract -- do not invent results that are not stated.\n\
\n\
--- Paper metadata ---\n";

/// What the prompt for a note asks for, up to the key of the item.
pub const NOTE_TASK: &'static str = "Draft a vault-compliant paper note in Obsidian Flavored Markdown for the Zotero \
item below. The note must follow this structure exactly:\n\
\n\
1. YAML frontmatter with at least `zotero_key: ";

/// The topics that a note must have.
pub const NOTE_TOPICS: &'static str = "` and `topics:` listing `\"[[Paper note]]\"` plus any relevant topic wikilinks ";

/// How a note is to be written.
pub const NOTE_RULES: &'static str = "(use existing topics \
when obvious from the metadata; otherwise invent reasonable ones).\n\
2. A first-level heading with the paper title.\n\
3. The following second-level headings, in this order, populated from the \
abstract and metadata (do NOT fabricate facts beyond what's given -- if a \
section can't be answered from the provided data, write a single sentence \
noting that and a TODO):\n";

/// The sections that a note must have.
pub const NOTE_SECTIONS: &'static str = "- `## Key Claim`\n\
- `## Problem Statement`\n\
- `## Method`\n\
- `## Relevance to Our Work`\n\
- `## Key References`\n";

/// The style of a note, and the heading over the metadata.
pub const NOTE_STYLE: &'static str = "\n\
Keep prose tight (1-3 short paragraphs per section) and prefer wikilinks \
(`[[concept]]`) over inline definitions for domain terms.\n\
\n\
--- Paper metadata ---\n";

/// The text of the prompt for a note.
pub open spec fn note_text(key: Seq<char>, context: Seq<char>) -> Seq<char> {
    NOTE_TASK@ + key + NOTE_TOPICS@ + NOTE_RULES@ + NOTE_SECTIONS@ + NOTE_STYLE@ + context
}

/// The text of the prompt for a summary.
pub fn summarize_body(context: &str) -> (r: String)
    ensures
        r@ == SUMMARY_TASK@ + context@,
{
    let mut out = SUMMARY_TASK.to_owned();
    out.append(context);
    out
}

/// The text of the prompt for a note.
pub fn write_note_body(key: &str, context: &str) -> (r: String)
    ensures
        r@ == note_text(key@, context@),
{
    let mut out = NOTE_TASK.to_owned();
    out.append(key);
    out.append(NOTE_TOPICS);
    out.append(NOTE_RULES);
    out.append(NOTE_SECTIONS);
    out.append(NOTE_STYLE);
    out.append(context);
    out
}

/// The answer to a request for a prompt: one message of the user.
#[derive(Debug)]
pub struct GetPromptResult {
    pub description: Option<String>,
    pub message: String,
}

/// Begins the answer to a request for a prompt: takes the key of the item and asks
/// for the item.
pub fn get_item(client: &ZoteroClient, arguments: Option<&JsonObject>) -> (r: Result<
    (String, Request),
    McpError,
>)
    ensures
        match r {
            Ok((key, request)) => {
                &&& is_string_arg(argument(arguments, "key"@), "key"@, Ok(key))
                &&& request@ == client@.reading(client@.item_url(key@))
            },
            Err(e) => is_string_arg(argument(arguments, "key"@), "key"@, Err(e)),
        },
{
    match require_string_arg(arguments, "key") {
        Ok(key) => {
            let request = client.get(key.as_str());
            Ok((key, request))
        },
        Err(e) => Err(e),
    }
}

/// Ends the answer to a request for a prompt, with the item.
pub fn get(name: &str, key: &str, item: &ZoteroItem) -> (r: Result<GetPromptResult, McpError>)
    ensures
        if name@ == SUMMARIZE_PAPER@ {
            &&& r matches Ok(p)
            &&& p.message@ == SUMMARY_TASK@ + context(*item)
            &&& p.description.deep_view() == Some("Summarize Zotero item "@ + key@)
        } else if name@ == WRITE_PAPER_NOTE@ {
            &&& r matches Ok(p)
            &&& p.message@ == note_text(key@, context(*item))
            &&& p.description.deep_view() == Some("Draft a paper note for Zotero item "@ + key@)
        } else {
            r matches Err(e) && e.says(ErrorKind::InvalidParams, "unknown prompt: "@ + name@)
        },
{
    let text = render_context(item);
    if same_text(name, SUMMARIZE_PAPER) {
        let mut description = "Summarize Zotero item ".to_owned();
        description.append(key);
        Ok(
            GetPromptResult {
                description: Some(description),
                message: summarize_body(text.as_str()),
            },
        )
    } else if same_text(name, WRITE_PAPER_NOTE) {
        let mut description = "Draft a paper note for Zotero item ".to_owned();
        description.append(key);
        Ok(
            GetPromptResult {
                description: Some(description),
                message: write_note_body(key, text.as_str()),
            },
        )
    } else {
        let mut message = "unknown prompt: ".to_owned();
        message.append(name);
        Err(McpError::invalid_params(message))
    }
}

/// Whether a text stands somewhere in another.
pub open spec fn appears(part: Seq<char>, whole: Seq<char>) -> bool {
    exists|i: int| #[trigger] stands_at(part, whole, i)
}

/// Whether a text stands in another from a position on.
pub open spec fn stands_at(part: Seq<char>, whole: Seq<char>, i: int) -> bool {
    0 <= i <= whole.len() - part.len() && whole.subrange(i, i + part.len()) == part
}

/// The prompt for a note asks for the key of the item in the frontmatter, for the
/// topic of paper notes and for the five sections of such a note, and it ends with
/// the metadata.
pub proof fn lemma_note_structure(key: Seq<char>, context: Seq<char>)
    ensures
        appears("zotero_key: "@ + key, note_text(key, context)),
        appears("[[Paper note]]"@, note_text(key, context)),
        appears("## Key Claim"@, note_text(key, context)),
        appears("## Problem Statement"@, note_text(key, context)),
        appears("## Method"@, note_text(key, context)),
        appears("## Relevance to Our Work"@, note_text(key, context)),
        appears("## Key References"@, note_text(key, context)),
        before_suffix(note_text(key, context), context) is Some,
{
    let body = note_text(key, context);
    lemma_note_task();
    let n = NOTE_TASK@.len();
    let k = "zotero_key: "@ + key;
    assert(body.subrange(n - 12, n - 12 + k.len()) =~= k);
    assert(stands_at(k, body, n - 12));
    lemma_note_sections();
    let m: int = n as int + key.len();
    let topic = "[[Paper note]]"@;
    assert(body.subrange(m + 26, m + 40) =~= NOTE_TOPICS@.subrange(26, 40));
    assert(stands_at(topic, body, m + 26));
    let s = m + NOTE_TOPICS@.len() + NOTE_RULES@.len();
    assert forall|part: Seq<char>, i: int| #[trigger]
        stands_at(part, NOTE_SECTIONS@, i) implies stands_at(part, body, s + i) by {
        assert(body.subrange(s + i, s + i + part.len()) =~= NOTE_SECTIONS@.subrange(
            i,
            i + part.len(),
        ));
    }
    assert(body.skip(body.len() - context.len()) =~= context);
}

proof fn lemma_note_task()
    ensures
        NOTE_TASK@.len() >= 12,
        "zotero_key: "@.len() == 12,
        NOTE_TASK@.skip(NOTE_TASK@.len() - 12) == "zotero_key: "@,
{
    reveal_strlit(
        "Draft a vault-compliant paper note in Obsidian Flavored Markdown for the Zotero \
item below. The note must follow this structure exactly:\n\
\n\
1. YAML frontmatter with at least `zotero_key: ",
    );
    reveal_strlit("zotero_key: ");
    assert(NOTE_TASK@.skip(NOTE_TASK@.len() - 12) =~= "zotero_key: "@);
}

proof fn lemma_note_sections()
    ensures
        stands_at("[[Paper note]]"@, NOTE_TOPICS@, 26),
        "[[Paper note]]"@.len() == 14,
        stands_at("## Key Claim"@, NOTE_SECTIONS@, 3),
        stands_at("## Problem Statement"@, NOTE_SECTIONS@, 20),
        stands_at("## Method"@, NOTE_SECTIONS@, 45),
        stands_at("## Relevance to Our Work"@, NOTE_SECTIONS@, 59),
        stands_at("## Key References"@, NOTE_SECTIONS@, 88),
{
    reveal_strlit("` and `topics:` listing `\"[[Paper note]]\"` plus any relevant topic wikilinks ");
    reveal_strlit("[[Paper note]]");
    assert(NOTE_TOPICS@.subrange(26, 40) =~= "[[Paper note]]"@);
    reveal_strlit(
        "- `## Key Claim`\n\
- `## Problem Statement`\n\
- `## Method`\n\
- `## Relevance to Our Work`\n\
- `## Key References`\n",
    );
    reveal_strlit("## Key Claim");
    assert(NOTE_SECTIONS@.subrange(3, 15) =~= "## Key Claim"@);
    reveal_strlit("## Problem Statement");
    assert(NOTE_SECTIONS@.subrange(20, 40) =~= "## Problem Statement"@);
    reveal_strlit("## Method");
    assert(NOTE_SECTIONS@.subrange(45, 54) =~= "## Method"@);
    reveal_strlit("## Relevance to Our Work");
    assert(NOTE_SECTIONS@.subrange(59, 83) =~= "## Relevance to Our Work"@);
    reveal_strlit("## Key References");
    assert(NOTE_SECTIONS@.subrange(88, 105) =~= "## Key References"@);
}

} // verus!
