//! The child items of an item: annotations, notes and attachments.

use crate::json::{field, object, put_field, text_of, views, Entries, Json, JsonObject, JsonView};
use crate::path::{lossy_text, reads_as, FilePath, FilePathView};
use crate::text::same_text;
use std::path::PathBuf;
use vstd::prelude::*;
use vstd::string::*;

verus! {

/// A field of the data of a child.
pub open spec fn data_field(child: JsonView, k: Seq<char>) -> Option<JsonView> {
    match field(child, "data"@) {
        Some(data) => field(data, k),
        None => None,
    }
}

/// A field of the data of a child, where it is a text.
pub open spec fn data_text(child: JsonView, k: Seq<char>) -> Option<Seq<char>> {
    match data_field(child, k) {
        Some(v) => text_of(v),
        None => None,
    }
}

/// Whether a child is an item of the given type.
pub open spec fn has_type(child: JsonView, item_type: Seq<char>) -> bool {
    data_text(child, "itemType"@) == Some(item_type)
}

/// Whether a child is an attachment with a PDF.
pub open spec fn is_pdf_attachment(child: JsonView) -> bool {
    has_type(child, "attachment"@) && data_text(child, "contentType"@) == Some("application/pdf"@)
}

/// The key of a child, where it is a text.
pub open spec fn child_key(child: JsonView) -> Option<Seq<char>> {
    match field(child, "key"@) {
        Some(v) => text_of(v),
        None => None,
    }
}

/// A value, or the empty text where there is none.
pub open spec fn or_empty(v: Option<JsonView>) -> JsonView {
    match v {
        Some(v) => v,
        None => JsonView::Text(Seq::empty()),
    }
}

fn get_data<'a>(child: &'a Json, k: &str) -> (r: Option<&'a Json>)
    ensures
        data_field(child@, k@) == (match r {
            Some(v) => Some(v@),
            None => None,
        }),
{
    match child.get("data") {
        Some(data) => data.get(k),
        None => None,
    }
}

fn get_data_text<'a>(child: &'a Json, k: &str) -> (r: Option<&'a str>)
    ensures
        r.deep_view() == data_text(child@, k@),
{
    match get_data(child, k) {
        Some(v) => v.as_str(),
        None => None,
    }
}

/// Tests whether a child is an item of the given type.
pub fn is_type(child: &Json, item_type: &str) -> (r: bool)
    ensures
        r == has_type(child@, item_type@),
{
    match get_data_text(child, "itemType") {
        Some(t) => same_text(t, item_type),
        None => false,
    }
}

/// Tests whether a child is an attachment with a PDF.
pub fn is_pdf(child: &Json) -> (r: bool)
    ensures
        r == is_pdf_attachment(child@),
{
    is_type(child, "attachment") && match get_data_text(child, "contentType") {
        Some(t) => same_text(t, "application/pdf"),
        None => false,
    }
}

/// The key of a child.
pub fn key_of(child: &Json) -> (r: Option<&str>)
    ensures
        r.deep_view() == child_key(child@),
{
    match child.get("key") {
        Some(v) => v.as_str(),
        None => None,
    }
}

fn value_or_empty(v: Option<&Json>) -> (r: Json)
    ensures
        r@ == or_empty(
            match v {
                Some(j) => Some(j@),
                None => None,
            },
        ),
{
    match v {
        Some(j) => j.clone(),
        None => Json::Text(String::new()),
    }
}

/// The fields of the compact record of an annotation.
pub open spec fn annotation_pairs(c: JsonView) -> Entries {
    seq![
        ("key"@, or_empty(field(c, "key"@))),
        ("type"@, or_empty(data_field(c, "annotationType"@))),
        ("text"@, or_empty(data_field(c, "annotationText"@))),
        ("comment"@, or_empty(data_field(c, "annotationComment"@))),
        ("page_label"@, or_empty(data_field(c, "annotationPageLabel"@))),
        ("color"@, or_empty(data_field(c, "annotationColor"@))),
    ]
}

/// The compact record of an annotation.
pub open spec fn annotation_record(c: JsonView) -> JsonView {
    JsonView::Object(object(annotation_pairs(c)))
}

/// The compact records of the annotations among the children, in their order.
pub open spec fn annotation_records(children: Seq<JsonView>) -> Seq<JsonView> {
    children.filter(|c: JsonView| has_type(c, "annotation"@)).map_values(
        |c: JsonView| annotation_record(c),
    )
}

/// The fields of the compact record of a note.
pub open spec fn note_pairs(c: JsonView) -> Entries {
    seq![
        ("key"@, or_empty(field(c, "key"@))),
        ("note"@, or_empty(data_field(c, "note"@))),
        ("parent_item"@, or_empty(data_field(c, "parentItem"@))),
    ]
}

/// The compact record of a note.
pub open spec fn note_record(c: JsonView) -> JsonView {
    JsonView::Object(object(note_pairs(c)))
}

/// The compact records of the notes among the children, in their order.
pub open spec fn note_records(children: Seq<JsonView>) -> Seq<JsonView> {
    children.filter(|c: JsonView| has_type(c, "note"@)).map_values(|c: JsonView| note_record(c))
}

/// Selecting and mapping one more item at the end.
proof fn lemma_select_push<A, B>(s: Seq<A>, x: A, p: spec_fn(A) -> bool, f: spec_fn(A) -> B)
    ensures
        s.push(x).filter(p).map_values(f) == (if p(x) {
            s.filter(p).map_values(f).push(f(x))
        } else {
            s.filter(p).map_values(f)
        }),
{
    reveal(Seq::filter);
    assert(s.push(x).drop_last() =~= s);
    assert(s.push(x).filter(p).map_values(f) =~= (if p(x) {
        s.filter(p).map_values(f).push(f(x))
    } else {
        s.filter(p).map_values(f)
    }));
}

/// What is selected and mapped comes from an item that is selected, and every such
/// item is mapped.
proof fn lemma_select_members<A, B>(s: Seq<A>, p: spec_fn(A) -> bool, f: spec_fn(A) -> B, y: B)
    ensures
        s.filter(p).map_values(f).contains(y) <==> exists|x: A| #[trigger]
            s.contains(x) && p(x) && f(x) == y,
    decreases s.len(),
{
    let out = s.filter(p).map_values(f);
    if s.len() == 0 {
        reveal(Seq::filter);
        assert(out =~= Seq::empty());
    } else {
        let front = s.drop_last();
        let last = s.last();
        assert(front.push(last) =~= s);
        lemma_select_push(front, last, p, f);
        lemma_select_members(front, p, f, y);
        let rest = front.filter(p).map_values(f);
        if out.contains(y) {
            if p(last) && f(last) == y {
                assert(s[s.len() - 1] == last);
                assert(s.contains(last));
            } else {
                assert(rest[out.index_of(y)] == y);
                let x = choose|x: A| #[trigger] front.contains(x) && p(x) && f(x) == y;
                assert(s[front.index_of(x)] == x);
                assert(s.contains(x));
            }
        }
        if exists|x: A| #[trigger] s.contains(x) && p(x) && f(x) == y {
            let x = choose|x: A| #[trigger] s.contains(x) && p(x) && f(x) == y;
            if front.contains(x) {
                assert(rest.contains(y));
                assert(out[rest.index_of(y)] == y);
            } else {
                let i = s.index_of(x);
                if i < front.len() {
                    assert(front[i] == x);
                }
                assert(x == last);
                assert(out[out.len() - 1] == y);
            }
        }
    }
}

/// The annotations that are listed are those among the children, and nothing else is
/// listed with them.
pub proof fn lemma_only_annotations(children: Seq<JsonView>, record: JsonView)
    ensures
        annotation_records(children).contains(record) <==> exists|c: JsonView| #[trigger]
            children.contains(c) && has_type(c, "annotation"@) && annotation_record(c) == record,
{
    let p = |c: JsonView| has_type(c, "annotation"@);
    let f = |c: JsonView| annotation_record(c);
    lemma_select_members(children, p, f, record);
}

/// The notes that are listed are those among the children, and nothing else is listed
/// with them.
pub proof fn lemma_only_notes(children: Seq<JsonView>, record: JsonView)
    ensures
        note_records(children).contains(record) <==> exists|c: JsonView| #[trigger]
            children.contains(c) && has_type(c, "note"@) && note_record(c) == record,
{
    let p = |c: JsonView| has_type(c, "note"@);
    let f = |c: JsonView| note_record(c);
    lemma_select_members(children, p, f, record);
}

fn annotation_to_json(c: &Json) -> (r: Json)
    ensures
        r@ == annotation_record(c@),
{
    let ghost all = annotation_pairs(c@);
    let mut o = JsonObject::new();
    assert(all.take(0) =~= Entries::empty());
    put_field(&mut o, Ghost(all), Ghost(0), "key", value_or_empty(c.get("key")));
    put_field(
        &mut o,
        Ghost(all),
        Ghost(1),
        "type",
        value_or_empty(get_data(c, "annotationType")),
    );
    put_field(
        &mut o,
        Ghost(all),
        Ghost(2),
        "text",
        value_or_empty(get_data(c, "annotationText")),
    );
    put_field(
        &mut o,
        Ghost(all),
        Ghost(3),
        "comment",
        value_or_empty(get_data(c, "annotationComment")),
    );
    put_field(
        &mut o,
        Ghost(all),
        Ghost(4),
        "page_label",
        value_or_empty(get_data(c, "annotationPageLabel")),
    );
    put_field(
        &mut o,
        Ghost(all),
        Ghost(5),
        "color",
        value_or_empty(get_data(c, "annotationColor")),
    );
    assert(all.take(6) =~= all);
    Json::Object(o)
}

fn note_to_json(c: &Json) -> (r: Json)
    ensures
        r@ == note_record(c@),
{
    let ghost all = note_pairs(c@);
    let mut o = JsonObject::new();
    assert(all.take(0) =~= Entries::empty());
    put_field(&mut o, Ghost(all), Ghost(0), "key", value_or_empty(c.get("key")));
    put_field(&mut o, Ghost(all), Ghost(1), "note", value_or_empty(get_data(c, "note")));
    put_field(
        &mut o,
        Ghost(all),
        Ghost(2),
        "parent_item",
        value_or_empty(get_data(c, "parentItem")),
    );
    assert(all.take(3) =~= all);
    Json::Object(o)
}

/// The annotations among the children as records of key, type, text, comment, page
/// label and color. A missing field is an empty text.
pub fn filter_annotations(children: &[Json]) -> (r: Vec<Json>)
    ensures
        views(r@) == annotation_records(views(children@)),
{
    let mut out: Vec<Json> = Vec::new();
    let ghost all = views(children@);
    let ghost p = |c: JsonView| has_type(c, "annotation"@);
    let ghost f = |c: JsonView| annotation_record(c);
    let mut i: usize = 0;
    proof {
        reveal(Seq::filter);
        assert(all.take(0) =~= Seq::empty());
        assert(views(out@) =~= annotation_records(all.take(0)));
    }
    while i < children.len()
        invariant
            i <= children.len(),
            all == views(children@),
            p == (|c: JsonView| has_type(c, "annotation"@)),
            f == (|c: JsonView| annotation_record(c)),
            views(out@) == annotation_records(all.take(i as int)),
        decreases children.len() - i,
    {
        let c = &children[i];
        let ghost earlier = views(out@);
        proof {
            assert(all.take(i + 1) =~= all.take(i as int).push(c@));
            lemma_select_push(all.take(i as int), c@, p, f);
        }
        if is_type(c, "annotation") {
            out.push(annotation_to_json(c));
            assert(views(out@) =~= earlier.push(annotation_record(c@)));
        }
        i += 1;
    }
    assert(all.take(all.len() as int) =~= all);
    out
}

/// The notes among the children as records of key, note and parent item. A missing
/// field is an empty text.
pub fn filter_notes(children: &[Json]) -> (r: Vec<Json>)
    ensures
        views(r@) == note_records(views(children@)),
{
    let mut out: Vec<Json> = Vec::new();
    let ghost all = views(children@);
    let ghost p = |c: JsonView| has_type(c, "note"@);
    let ghost f = |c: JsonView| note_record(c);
    let mut i: usize = 0;
    proof {
        reveal(Seq::filter);
        assert(all.take(0) =~= Seq::empty());
        assert(views(out@) =~= note_records(all.take(0)));
    }
    while i < children.len()
        invariant
            i <= children.len(),
            all == views(children@),
            p == (|c: JsonView| has_type(c, "note"@)),
            f == (|c: JsonView| note_record(c)),
            views(out@) == note_records(all.take(i as int)),
        decreases children.len() - i,
    {
        let c = &children[i];
        let ghost earlier = views(out@);
        proof {
            assert(all.take(i + 1) =~= all.take(i as int).push(c@));
            lemma_select_push(all.take(i as int), c@, p, f);
        }
        if is_type(c, "note") {
            out.push(note_to_json(c));
            assert(views(out@) =~= earlier.push(note_record(c@)));
        }
        i += 1;
    }
    assert(all.take(all.len() as int) =~= all);
    out
}

/// An attachment.
#[derive(Debug)]
pub struct Attachment {
    pub key: String,
    pub filename: String,
    pub content_type: String,
}

/// The mathematical value of an [`Attachment`].
pub struct AttachmentView {
    pub key: Seq<char>,
    pub filename: Seq<char>,
    pub content_type: Seq<char>,
}

impl View for Attachment {
    type V = AttachmentView;

    open spec fn view(&self) -> AttachmentView {
        AttachmentView {
            key: self.key@,
            filename: self.filename@,
            content_type: self.content_type@,
        }
    }
}

/// A text, or the empty text where there is none.
pub open spec fn text_or_empty(t: Option<Seq<char>>) -> Seq<char> {
    match t {
        Some(t) => t,
        None => Seq::empty(),
    }
}

/// An attachment among the children. A field that is no text counts as empty.
pub open spec fn attachment_of(c: JsonView) -> AttachmentView {
    AttachmentView {
        key: text_or_empty(child_key(c)),
        filename: text_or_empty(data_text(c, "filename"@)),
        content_type: text_or_empty(data_text(c, "contentType"@)),
    }
}

/// The attachments among the children, in their order.
pub open spec fn attachments_of(children: Seq<JsonView>) -> Seq<AttachmentView> {
    children.filter(|c: JsonView| has_type(c, "attachment"@)).map_values(
        |c: JsonView| attachment_of(c),
    )
}

/// The values of a list of attachments.
pub open spec fn attachment_views(v: Seq<Attachment>) -> Seq<AttachmentView> {
    v.map_values(|a: Attachment| a@)
}

fn owned_or_empty(t: Option<&str>) -> (r: String)
    ensures
        r@ == text_or_empty(t.deep_view()),
{
    match t {
        Some(t) => t.to_owned(),
        None => String::new(),
    }
}

/// Lists the attachments among the children.
pub fn attachments(children: &[Json]) -> (r: Vec<Attachment>)
    ensures
        attachment_views(r@) == attachments_of(views(children@)),
{
    let mut out: Vec<Attachment> = Vec::new();
    let ghost all = views(children@);
    let ghost p = |c: JsonView| has_type(c, "attachment"@);
    let ghost f = |c: JsonView| attachment_of(c);
    let mut i: usize = 0;
    proof {
        reveal(Seq::filter);
        assert(all.take(0) =~= Seq::empty());
        assert(attachment_views(out@) =~= attachments_of(all.take(0)));
    }
    while i < children.len()
        invariant
            i <= children.len(),
            all == views(children@),
            p == (|c: JsonView| has_type(c, "attachment"@)),
            f == (|c: JsonView| attachment_of(c)),
            attachment_views(out@) == attachments_of(all.take(i as int)),
        decreases children.len() - i,
    {
        let c = &children[i];
        let ghost earlier = attachment_views(out@);
        proof {
            assert(all.take(i + 1) =~= all.take(i as int).push(c@));
            lemma_select_push(all.take(i as int), c@, p, f);
        }
        if is_type(c, "attachment") {
            let key = owned_or_empty(key_of(c));
            let filename = owned_or_empty(get_data_text(c, "filename"));
            let content_type = owned_or_empty(get_data_text(c, "contentType"));
            out.push(Attachment { key, filename, content_type });
            assert(attachment_views(out@) =~= earlier.push(attachment_of(c@)));
        }
        i += 1;
    }
    assert(all.take(all.len() as int) =~= all);
    out
}

/// The file of an attachment lies in a directory of its key below the storage of the
/// library.
pub open spec fn file_of_attachment(a: AttachmentView, storage: PathBuf) -> FilePathView {
    FilePathView { base: Some(storage), parts: seq![a.key, a.filename] }
}

/// The fields of the record of an attachment.
pub open spec fn attachment_pairs(
    a: AttachmentView,
    path: Seq<char>,
    exists_on_disk: bool,
) -> Entries {
    seq![
        ("key"@, JsonView::Text(a.key)),
        ("filename"@, JsonView::Text(a.filename)),
        ("content_type"@, JsonView::Text(a.content_type)),
        ("path"@, JsonView::Text(path)),
        ("exists"@, JsonView::Bool(exists_on_disk)),
    ]
}

/// The record of an attachment.
pub open spec fn attachment_record(
    a: AttachmentView,
    path: Seq<char>,
    exists_on_disk: bool,
) -> JsonView {
    JsonView::Object(object(attachment_pairs(a, path, exists_on_disk)))
}

impl Attachment {
    /// The path of the file below the storage of the library.
    pub fn file(&self, storage: PathBuf) -> (r: FilePath)
        ensures
            r@ == file_of_attachment(self@, storage),
    {
        let r = FilePath::directory(storage).below(self.key.as_str()).below(self.filename.as_str());
        assert(r@.parts =~= seq![self.key@, self.filename@]);
        r
    }

    /// The record of the attachment, with the path of its file, as it reads, and what is
    /// known of it.
    pub fn to_json(&self, path: &PathBuf, exists_on_disk: bool) -> (r: Json)
        ensures
            exists|text: Seq<char>| #[trigger]
                reads_as(*path, text) && r@ == attachment_record(self@, text, exists_on_disk),
    {
        let text = lossy_text(path);
        self.record(text.as_str(), exists_on_disk)
    }

    /// The record of the attachment, with the path of its file as a text.
    pub fn record(&self, path: &str, exists_on_disk: bool) -> (r: Json)
        ensures
            r@ == attachment_record(self@, path@, exists_on_disk),
    {
        let ghost all = attachment_pairs(self@, path@, exists_on_disk);
        let mut o = JsonObject::new();
        assert(all.take(0) =~= Entries::empty());
        put_field(&mut o, Ghost(all), Ghost(0), "key", Json::text(self.key.as_str()));
        put_field(&mut o, Ghost(all), Ghost(1), "filename", Json::text(self.filename.as_str()));
        put_field(
            &mut o,
            Ghost(all),
            Ghost(2),
            "content_type",
            Json::text(self.content_type.as_str()),
        );
        put_field(&mut o, Ghost(all), Ghost(3), "path", Json::text(path));
        put_field(&mut o, Ghost(all), Ghost(4), "exists", Json::Bool(exists_on_disk));
        assert(all.take(5) =~= all);
        Json::Object(o)
    }
}

} // verus!
