//! Laws of the lists of child items.

use crate::children::{
    annotation_pairs, annotation_record, attachment_of, attachment_pairs, attachment_views,
    attachments, attachments_of, filter_annotations, filter_notes, has_type, is_pdf, is_type,
    key_of, note_pairs, note_record, Attachment, AttachmentView,
};
use crate::json::{field, views, Json, JsonView};
use crate::laws::json::{inner, law_object, text_in, value_in};
use crate::path::{reads_as, FilePath};
use std::path::PathBuf;
use vstd::prelude::*;
use vstd::string::*;

verus! {

/// How many children have a type.
pub open spec fn number_of(children: Seq<JsonView>, item_type: Seq<char>) -> nat
    decreases children.len(),
{
    if children.len() == 0 {
        0
    } else {
        number_of(children.drop_last(), item_type) + if inner(children.last(), "itemType"@)
            == Some(JsonView::Text(item_type)) {
            1nat
        } else {
            0nat
        }
    }
}

/// One more child adds one entry behind the others where its item type is the text
/// `attachment`, with its key, file name and content type; a child of another type adds
/// none. No children have no attachments.
pub proof fn law_attachments(children: Seq<JsonView>, c: JsonView)
    ensures
        attachments_of(Seq::empty()) == Seq::<AttachmentView>::empty(),
        inner(c, "itemType"@) == Some(JsonView::Text("attachment"@)) ==> attachments_of(
            children.push(c),
        ) == attachments_of(children).push(
            (AttachmentView {
                key: text_in(field(c, "key"@)),
                filename: text_in(inner(c, "filename"@)),
                content_type: text_in(inner(c, "contentType"@)),
            }),
        ),
        inner(c, "itemType"@) != Some(JsonView::Text("attachment"@)) ==> attachments_of(
            children.push(c),
        ) == attachments_of(children),
{
    reveal(Seq::filter);
    let p = |c: JsonView| has_type(c, "attachment"@);
    let f = |c: JsonView| attachment_of(c);
    assert(Seq::<JsonView>::empty().filter(p).map_values(f) =~= Seq::empty());
    assert(children.push(c).drop_last() =~= children);
    assert(has_type(c, "attachment"@) <==> inner(c, "itemType"@) == Some(
        JsonView::Text("attachment"@),
    ));
    if has_type(c, "attachment"@) {
        assert(children.push(c).filter(p).map_values(f) =~= children.filter(p).map_values(f).push(
            f(c),
        ));
    } else {
        assert(children.push(c).filter(p) =~= children.filter(p));
    }
}

/// What is selected by its type and mapped stands at the position that counts the
/// selected ones in front of it.
proof fn lemma_positions<B>(
    s: Seq<JsonView>,
    item_type: Seq<char>,
    p: spec_fn(JsonView) -> bool,
    f: spec_fn(JsonView) -> B,
)
    requires
        forall|c: JsonView| #[trigger]
            p(c) <==> inner(c, "itemType"@) == Some(JsonView::Text(item_type)),
    ensures
        s.filter(p).map_values(f).len() == number_of(s, item_type),
        forall|i: int|
            0 <= i < s.len() && inner(#[trigger] s[i], "itemType"@) == Some(
                JsonView::Text(item_type),
            ) ==> {
                let at = number_of(s.take(i), item_type);
                &&& at < number_of(s, item_type)
                &&& s.filter(p).map_values(f)[at as int] == f(s[i])
            },
    decreases s.len(),
{
    reveal(Seq::filter);
    if s.len() > 0 {
        let front = s.drop_last();
        let out = s.filter(p).map_values(f);
        let rest = front.filter(p).map_values(f);
        lemma_positions(front, item_type, p, f);
        assert(p(s.last()) <==> inner(s.last(), "itemType"@) == Some(JsonView::Text(item_type)));
        if p(s.last()) {
            assert(out =~= rest.push(f(s.last())));
        } else {
            assert(out =~= rest);
        }
        assert forall|i: int|
            0 <= i < s.len() && inner(#[trigger] s[i], "itemType"@) == Some(
                JsonView::Text(item_type),
            ) implies {
            let at = number_of(s.take(i), item_type);
            &&& at < number_of(s, item_type)
            &&& out[at as int] == f(s[i])
        } by {
            if i < front.len() {
                assert(front[i] == s[i]);
                assert(front.take(i) =~= s.take(i));
            } else {
                assert(s.take(i) =~= front);
            }
        }
    }
}

/// The list of attachments has one entry for each child whose item type is the text
/// `attachment`, with its key, file name and content type, in the order of the children,
/// and no other entry.
pub proof fn law_each_attachment_listed(children: &[Json], r: Vec<Attachment>)
    requires
        call_ensures(attachments, (children,), r),
    ensures
        r@.len() == number_of(views(children@), "attachment"@),
        forall|i: int|
            0 <= i < children@.len() && inner(#[trigger] children@[i]@, "itemType"@) == Some(
                JsonView::Text("attachment"@),
            ) ==> {
                let at = number_of(views(children@).take(i), "attachment"@) as int;
                &&& at < r@.len()
                &&& r@[at].key@ == text_in(field(children@[i]@, "key"@))
                &&& r@[at].filename@ == text_in(inner(children@[i]@, "filename"@))
                &&& r@[at].content_type@ == text_in(inner(children@[i]@, "contentType"@))
            },
{
    let all = views(children@);
    let p = |c: JsonView| has_type(c, "attachment"@);
    let f = |c: JsonView| attachment_of(c);
    lemma_positions(all, "attachment"@, p, f);
    assert(attachment_views(r@) == all.filter(p).map_values(f));
    assert forall|i: int|
        0 <= i < children@.len() && inner(#[trigger] children@[i]@, "itemType"@) == Some(
            JsonView::Text("attachment"@),
        ) implies {
        let at = number_of(all.take(i), "attachment"@) as int;
        &&& at < r@.len()
        &&& r@[at].key@ == text_in(field(children@[i]@, "key"@))
        &&& r@[at].filename@ == text_in(inner(children@[i]@, "filename"@))
        &&& r@[at].content_type@ == text_in(inner(children@[i]@, "contentType"@))
    } by {
        assert(all[i] == children@[i]@);
        let at = number_of(all.take(i), "attachment"@) as int;
        assert(attachment_views(r@)[at] == r@[at]@);
        assert(f(all[i]) == attachment_of(all[i]));
    }
}

/// A child is of a type where its data has that text as the item type, and a PDF where it
/// is an attachment whose content type is `application/pdf`. Its key is the text under
/// `key`.
pub proof fn law_child(child: &Json, item_type: &str, typed: bool, pdf: bool, key: Option<&str>)
    requires
        call_ensures(is_type, (child, item_type), typed),
        call_ensures(is_pdf, (child,), pdf),
        call_ensures(key_of, (child,), key),
    ensures
        typed <==> inner(child@, "itemType"@) == Some(JsonView::Text(item_type@)),
        pdf <==> inner(child@, "itemType"@) == Some(JsonView::Text("attachment"@)) && inner(
            child@,
            "contentType"@,
        ) == Some(JsonView::Text("application/pdf"@)),
        key is Some ==> field(child@, "key"@) == Some(JsonView::Text(key->0@)),
        key is None ==> !(field(child@, "key"@) matches Some(JsonView::Text(_))),
{
}

/// Whether a record shows an annotation: its key, type, text, comment, page label and
/// color, each as it is or as an empty text where it is missing, and nothing else.
pub open spec fn shows_annotation(record: JsonView, c: JsonView) -> bool {
    &&& field(record, "key"@) == Some(value_in(field(c, "key"@)))
    &&& field(record, "type"@) == Some(value_in(inner(c, "annotationType"@)))
    &&& field(record, "text"@) == Some(value_in(inner(c, "annotationText"@)))
    &&& field(record, "comment"@) == Some(value_in(inner(c, "annotationComment"@)))
    &&& field(record, "page_label"@) == Some(value_in(inner(c, "annotationPageLabel"@)))
    &&& field(record, "color"@) == Some(value_in(inner(c, "annotationColor"@)))
    &&& forall|k: Seq<char>|
        k != "key"@ && k != "type"@ && k != "text"@ && k != "comment"@ && k != "page_label"@ && k
            != "color"@ ==> #[trigger] field(record, k) is None
}

proof fn lemma_shows_annotation(c: JsonView)
    ensures
        shows_annotation(annotation_record(c), c),
{
    reveal_strlit("key");
    reveal_strlit("type");
    reveal_strlit("text");
    reveal_strlit("comment");
    reveal_strlit("page_label");
    reveal_strlit("color");
    let pairs = annotation_pairs(c);
    assert("key"@.len() == 3 && "type"@.len() == 4 && "text"@.len() == 4 && "comment"@.len() == 7
        && "page_label"@.len() == 10 && "color"@.len() == 5);
    assert("type"@[1] == 'y' && "text"@[1] == 'e');
    assert(pairs[0].0 == "key"@ && pairs[1].0 == "type"@ && pairs[2].0 == "text"@);
    assert(pairs[3].0 == "comment"@ && pairs[4].0 == "page_label"@ && pairs[5].0 == "color"@);
    law_object(pairs, "key"@);
    law_object(pairs, "type"@);
    law_object(pairs, "text"@);
    law_object(pairs, "comment"@);
    law_object(pairs, "page_label"@);
    law_object(pairs, "color"@);
    assert forall|k: Seq<char>|
        k != "key"@ && k != "type"@ && k != "text"@ && k != "comment"@ && k != "page_label"@ && k
            != "color"@ implies #[trigger] field(annotation_record(c), k) is None by {
        law_object(pairs, k);
    }
}

/// The list of annotations has one record for each child whose item type is the text
/// `annotation`, in the order of the children, and no other record.
pub proof fn law_each_annotation_listed(children: &[Json], r: Vec<Json>)
    requires
        call_ensures(filter_annotations, (children,), r),
    ensures
        r@.len() == number_of(views(children@), "annotation"@),
        forall|i: int|
            0 <= i < children@.len() && inner(#[trigger] children@[i]@, "itemType"@) == Some(
                JsonView::Text("annotation"@),
            ) ==> {
                let at = number_of(views(children@).take(i), "annotation"@) as int;
                &&& at < r@.len()
                &&& shows_annotation(r@[at]@, children@[i]@)
            },
{
    let all = views(children@);
    let p = |c: JsonView| has_type(c, "annotation"@);
    let f = |c: JsonView| annotation_record(c);
    lemma_positions(all, "annotation"@, p, f);
    assert(views(r@) == all.filter(p).map_values(f));
    assert(views(r@).len() == r@.len());
    assert forall|i: int|
        0 <= i < children@.len() && inner(#[trigger] children@[i]@, "itemType"@) == Some(
            JsonView::Text("annotation"@),
        ) implies {
        let at = number_of(all.take(i), "annotation"@) as int;
        &&& at < r@.len()
        &&& shows_annotation(r@[at]@, children@[i]@)
    } by {
        assert(all[i] == children@[i]@);
        let at = number_of(all.take(i), "annotation"@) as int;
        assert(views(r@)[at] == r@[at]@);
        assert(f(all[i]) == annotation_record(all[i]));
        lemma_shows_annotation(all[i]);
    }
}

/// Whether a record shows a note: its key, its text and the item that it belongs to, each
/// as it is or as an empty text where it is missing, and nothing else.
pub open spec fn shows_note(record: JsonView, c: JsonView) -> bool {
    &&& field(record, "key"@) == Some(value_in(field(c, "key"@)))
    &&& field(record, "note"@) == Some(value_in(inner(c, "note"@)))
    &&& field(record, "parent_item"@) == Some(value_in(inner(c, "parentItem"@)))
    &&& forall|k: Seq<char>|
        k != "key"@ && k != "note"@ && k != "parent_item"@ ==> #[trigger] field(record, k) is None
}

proof fn lemma_shows_note(c: JsonView)
    ensures
        shows_note(note_record(c), c),
{
    reveal_strlit("key");
    reveal_strlit("note");
    reveal_strlit("parent_item");
    let pairs = note_pairs(c);
    assert("key"@.len() == 3 && "note"@.len() == 4 && "parent_item"@.len() == 11);
    assert(pairs[0].0 == "key"@ && pairs[1].0 == "note"@ && pairs[2].0 == "parent_item"@);
    law_object(pairs, "key"@);
    law_object(pairs, "note"@);
    law_object(pairs, "parent_item"@);
    assert forall|k: Seq<char>|
        k != "key"@ && k != "note"@ && k != "parent_item"@ implies #[trigger] field(
        note_record(c),
        k,
    ) is None by {
        law_object(pairs, k);
    }
}

/// The list of notes has one record for each child whose item type is the text `note`, in
/// the order of the children, and no other record.
pub proof fn law_each_note_listed(children: &[Json], r: Vec<Json>)
    requires
        call_ensures(filter_notes, (children,), r),
    ensures
        r@.len() == number_of(views(children@), "note"@),
        forall|i: int|
            0 <= i < children@.len() && inner(#[trigger] children@[i]@, "itemType"@) == Some(
                JsonView::Text("note"@),
            ) ==> {
                let at = number_of(views(children@).take(i), "note"@) as int;
                &&& at < r@.len()
                &&& shows_note(r@[at]@, children@[i]@)
            },
{
    let all = views(children@);
    let p = |c: JsonView| has_type(c, "note"@);
    let f = |c: JsonView| note_record(c);
    lemma_positions(all, "note"@, p, f);
    assert(views(r@) == all.filter(p).map_values(f));
    assert(views(r@).len() == r@.len());
    assert forall|i: int|
        0 <= i < children@.len() && inner(#[trigger] children@[i]@, "itemType"@) == Some(
            JsonView::Text("note"@),
        ) implies {
        let at = number_of(all.take(i), "note"@) as int;
        &&& at < r@.len()
        &&& shows_note(r@[at]@, children@[i]@)
    } by {
        assert(all[i] == children@[i]@);
        let at = number_of(all.take(i), "note"@) as int;
        assert(views(r@)[at] == r@[at]@);
        assert(f(all[i]) == note_record(all[i]));
        lemma_shows_note(all[i]);
    }
}

/// Whether a record shows an attachment with the path of its file and whether the file is
/// there, and nothing else.
pub open spec fn shows_attachment(
    record: JsonView,
    a: Attachment,
    path: Seq<char>,
    there: bool,
) -> bool {
    &&& field(record, "key"@) == Some(JsonView::Text(a.key@))
    &&& field(record, "filename"@) == Some(JsonView::Text(a.filename@))
    &&& field(record, "content_type"@) == Some(JsonView::Text(a.content_type@))
    &&& field(record, "path"@) == Some(JsonView::Text(path))
    &&& field(record, "exists"@) == Some(JsonView::Bool(there))
    &&& forall|k: Seq<char>|
        k != "key"@ && k != "filename"@ && k != "content_type"@ && k != "path"@ && k != "exists"@
            ==> #[trigger] field(record, k) is None
}

proof fn lemma_shows_attachment(a: Attachment, path: Seq<char>, there: bool)
    ensures
        shows_attachment(crate::children::attachment_record(a@, path, there), a, path, there),
{
    reveal_strlit("key");
    reveal_strlit("filename");
    reveal_strlit("content_type");
    reveal_strlit("path");
    reveal_strlit("exists");
    let pairs = attachment_pairs(a@, path, there);
    let record = crate::children::attachment_record(a@, path, there);
    assert("key"@.len() == 3 && "filename"@.len() == 8 && "content_type"@.len() == 12
        && "path"@.len() == 4 && "exists"@.len() == 6);
    assert(pairs[0].0 == "key"@ && pairs[1].0 == "filename"@ && pairs[2].0 == "content_type"@);
    assert(pairs[3].0 == "path"@ && pairs[4].0 == "exists"@);
    law_object(pairs, "key"@);
    law_object(pairs, "filename"@);
    law_object(pairs, "content_type"@);
    law_object(pairs, "path"@);
    law_object(pairs, "exists"@);
    assert forall|k: Seq<char>|
        k != "key"@ && k != "filename"@ && k != "content_type"@ && k != "path"@ && k
            != "exists"@ implies #[trigger] field(record, k) is None by {
        law_object(pairs, k);
    }
}

/// The record of an attachment shows it, with the path as a text.
pub proof fn law_attachment_record(a: &Attachment, path: &str, there: bool, r: Json)
    requires
        call_ensures(Attachment::record, (a, path, there), r),
    ensures
        shows_attachment(r@, *a, path@, there),
{
    lemma_shows_attachment(*a, path@, there);
}

/// The record of an attachment with a path of the system shows a text that the path reads
/// as.
pub proof fn law_attachment_to_json(a: &Attachment, path: &PathBuf, there: bool, r: Json)
    requires
        call_ensures(Attachment::to_json, (a, path, there), r),
    ensures
        exists|text: Seq<char>| #[trigger]
            reads_as(*path, text) && shows_attachment(r@, *a, text, there),
{
    let text = choose|text: Seq<char>| #[trigger]
        reads_as(*path, text) && r@ == crate::children::attachment_record(a@, text, there);
    lemma_shows_attachment(*a, text, there);
}

/// The file of an attachment lies in the directory with its key below the storage.
pub proof fn law_attachment_file(a: &Attachment, storage: PathBuf, r: FilePath)
    requires
        call_ensures(Attachment::file, (a, storage), r),
    ensures
        r.base == Some(storage),
        r.parts@.len() == 2,
        r.parts@[0]@ == a.key@,
        r.parts@[1]@ == a.filename@,
{
    assert(r@.parts.len() == r.parts@.len());
    assert(r@.parts[0] == r.parts@[0]@);
    assert(r@.parts[1] == r.parts@[1]@);
}

} // verus!
