//! Laws of items and of their compact records.

use crate::json::{field, keys, lookup, Entries, JsonView};
use crate::laws::json::law_object;
use crate::laws::text::law_size_reads_back;
use crate::text::{decimal, increasing, size_of_text, texts};
use crate::types::{
    abstract_cap, author_names, authors, cap_read, compact_items, creator_json, creator_pairs,
    declared_pairs, item_fields, lemma_item_fields_keep_extra, tag_json, tag_list, tag_names,
    truncate_abstract, truncated, CompactItem, Creator, ItemData, Tag, ZoteroItem,
};
use vstd::prelude::*;
use vstd::string::*;

verus! {

/// Whether the type of a creator is the text `author`.
pub open spec fn wrote(c: Creator) -> bool {
    c.creator_type is Some && c.creator_type->0@ == "author"@
}

/// How many creators have the type `author`.
pub open spec fn number_of_authors(creators: Seq<Creator>) -> nat
    decreases creators.len(),
{
    if creators.len() == 0 {
        0
    } else {
        number_of_authors(creators.drop_last()) + if wrote(creators.last()) {
            1nat
        } else {
            0nat
        }
    }
}

/// Whether a text is the name under which a creator is shown: the last name, a comma and
/// the first name where both are there; the last name where only it is there; the name of
/// an institution where neither is there; `Unknown` in all other cases.
pub open spec fn shows(c: Creator, name: Seq<char>) -> bool {
    &&& c.last_name is Some && c.first_name is Some ==> name == c.last_name->0@ + ", "@
        + c.first_name->0@
    &&& c.last_name is Some && c.first_name is None ==> name == c.last_name->0@
    &&& c.last_name is None && c.first_name is None && c.name is Some ==> name == c.name->0@
    &&& c.last_name is None && (c.first_name is Some || c.name is None) ==> name == "Unknown"@
}

/// The name under which a creator is shown.
pub proof fn law_shown_name(c: &Creator, r: String)
    requires
        call_ensures(Creator::display_name, (c,), r),
    ensures
        shows(*c, r@),
        shows(*c, c.shown_name()),
{
}

/// One more creator adds one name behind the others where its type is the text `author`;
/// a creator of another type, or of none, adds nothing. No creators have no authors.
pub proof fn law_authors(creators: Seq<Creator>, c: Creator)
    ensures
        author_names(Seq::empty()) == Seq::<Seq<char>>::empty(),
        c.creator_type is Some && c.creator_type->0@ == "author"@ ==> author_names(
            creators.push(c),
        ) == author_names(creators).push(c.shown_name()),
        c.creator_type is None ==> author_names(creators.push(c)) == author_names(creators),
        c.creator_type is Some && c.creator_type->0@ != "author"@ ==> author_names(
            creators.push(c),
        ) == author_names(creators),
{
    reveal(Seq::filter);
    let p = |c: Creator| c.is_author();
    let f = |c: Creator| c.shown_name();
    assert(author_names(Seq::empty()) =~= Seq::empty());
    assert(creators.push(c).drop_last() =~= creators);
    if wrote(c) {
        assert(p(c));
        assert(creators.push(c).filter(p).map_values(f) =~= creators.filter(p).map_values(f).push(
            f(c),
        ));
    } else {
        assert(!p(c));
        assert(creators.push(c).filter(p) =~= creators.filter(p));
    }
}

proof fn lemma_author_positions(creators: Seq<Creator>)
    ensures
        author_names(creators).len() == number_of_authors(creators),
        forall|i: int|
            0 <= i < creators.len() && wrote(#[trigger] creators[i]) ==> {
                let at = number_of_authors(creators.take(i));
                &&& at < number_of_authors(creators)
                &&& author_names(creators)[at as int] == creators[i].shown_name()
            },
    decreases creators.len(),
{
    if creators.len() == 0 {
        assert(creators =~= Seq::empty());
        law_authors(creators, arbitrary());
    } else {
        let front = creators.drop_last();
        law_authors(front, creators.last());
        assert(front.push(creators.last()) =~= creators);
        lemma_author_positions(front);
        assert forall|i: int| 0 <= i < creators.len() && wrote(#[trigger] creators[i]) implies {
            let at = number_of_authors(creators.take(i));
            &&& at < number_of_authors(creators)
            &&& author_names(creators)[at as int] == creators[i].shown_name()
        } by {
            if i < front.len() {
                assert(front[i] == creators[i]);
                assert(front.take(i) =~= creators.take(i));
            } else {
                assert(creators.take(i) =~= front);
            }
        }
    }
}

/// The list of authors has one name for each creator whose type is the text `author`, the
/// one under which that creator is shown, in the order of the creators, and no other name.
pub proof fn law_each_author_listed(creators: &Vec<Creator>, r: Vec<String>)
    requires
        call_ensures(authors, (creators,), r),
    ensures
        r@.len() == number_of_authors(creators@),
        forall|i: int|
            0 <= i < creators@.len() && wrote(#[trigger] creators@[i]) ==> {
                let at = number_of_authors(creators@.take(i)) as int;
                &&& at < r@.len()
                &&& shows(creators@[i], r@[at]@)
            },
{
    lemma_author_positions(creators@);
    assert(texts(r@).len() == r@.len());
    assert forall|i: int| 0 <= i < creators@.len() && wrote(#[trigger] creators@[i]) implies {
        let at = number_of_authors(creators@.take(i)) as int;
        &&& at < r@.len()
        &&& shows(creators@[i], r@[at]@)
    } by {
        let at = number_of_authors(creators@.take(i)) as int;
        assert(texts(r@)[at] == r@[at]@);
    }
}

/// Whether an abstract is cut as a record shows it: left out under a cap of 0 or where it
/// is empty, whole where it has no more characters than the cap, else its first characters
/// up to the cap with three dots behind them.
pub open spec fn is_cut(text: Seq<char>, cap: nat, r: Option<String>) -> bool {
    &&& cap == 0 ==> r is None
    &&& text.len() == 0 ==> r is None
    &&& cap > 0 && 0 < text.len() <= cap ==> r is Some && r->0@ == text
    &&& 0 < cap < text.len() ==> {
        &&& r is Some
        &&& r->0@.len() == cap + 3
        &&& forall|i: int| 0 <= i < cap ==> #[trigger] r->0@[i] == text[i]
        &&& r->0@[cap as int] == '.'
        &&& r->0@[cap as int + 1] == '.'
        &&& r->0@[cap as int + 2] == '.'
    }
}

/// How an abstract is cut.
pub proof fn law_cut_abstract(text: &str, cap: usize, r: Option<String>)
    requires
        call_ensures(truncate_abstract, (text, cap), r),
    ensures
        is_cut(text@, cap as nat, r),
{
    reveal_strlit("...");
}

/// The cap on abstracts is 500 where it is not set or the setting is no number, and the
/// number that is set elsewhere. What was read once is read again, whatever is set by
/// then.
pub proof fn law_cap(n: usize, other: Seq<char>, setting: Option<Seq<char>>)
    ensures
        abstract_cap(None) == 500,
        abstract_cap(Some(decimal(n as nat))) == n,
        size_of_text(other) is None ==> abstract_cap(Some(other)) == 500,
        cap_read(None, setting) == abstract_cap(setting),
        cap_read(Some(n), setting) == n,
{
    law_size_reads_back(n);
}

/// Whether an optional text is another one.
pub open spec fn same_option(a: Option<String>, b: Option<String>) -> bool {
    &&& a is Some <==> b is Some
    &&& a is Some ==> a->0@ == b->0@
}

/// Whether a record shows an item: its key, title, type and date as they are, the names of
/// the creators of type `author` and of no others, in their order, and its abstract under
/// the cap.
pub open spec fn shows_item(r: CompactItem, item: ZoteroItem, cap: nat) -> bool {
    &&& r.key@ == item.key@
    &&& same_option(r.title, item.data.title)
    &&& same_option(r.item_type, item.data.item_type)
    &&& same_option(r.date, item.data.date)
    &&& item.data.abstract_note is None ==> r.abstract_note is None
    &&& item.data.abstract_note is Some ==> is_cut(
        item.data.abstract_note->0@,
        cap,
        r.abstract_note,
    )
    &&& r.authors@.len() == number_of_authors(item.data.creators@)
    &&& forall|i: int|
        0 <= i < item.data.creators@.len() && wrote(#[trigger] item.data.creators@[i]) ==> {
            let at = number_of_authors(item.data.creators@.take(i)) as int;
            &&& at < r.authors@.len()
            &&& shows(item.data.creators@[i], r.authors@[at]@)
        }
}

pub proof fn lemma_shows_item(r: CompactItem, item: ZoteroItem, cap: nat)
    requires
        r.is_of(item, cap),
    ensures
        shows_item(r, item, cap),
{
    reveal_strlit("...");
    let creators = item.data.creators@;
    lemma_author_positions(creators);
    assert(texts(r.authors@).len() == r.authors@.len());
    assert forall|i: int| 0 <= i < creators.len() && wrote(#[trigger] creators[i]) implies {
        let at = number_of_authors(creators.take(i)) as int;
        &&& at < r.authors@.len()
        &&& shows(creators[i], r.authors@[at]@)
    } by {
        let at = number_of_authors(creators.take(i)) as int;
        assert(texts(r.authors@)[at] == r.authors@[at]@);
    }
    assert(same_option(r.title, item.data.title)) by {
        assert(r.title.deep_view() == item.data.title.deep_view());
    }
    assert(same_option(r.item_type, item.data.item_type)) by {
        assert(r.item_type.deep_view() == item.data.item_type.deep_view());
    }
    assert(same_option(r.date, item.data.date)) by {
        assert(r.date.deep_view() == item.data.date.deep_view());
    }
    if let Some(t) = item.data.abstract_note {
        assert(r.abstract_note.deep_view() == truncated(t@, cap));
        assert(is_cut(t@, cap, r.abstract_note));
    }
}

/// The compact record of an item shows it.
pub proof fn law_compact_item(item: &ZoteroItem, cap: usize, r: CompactItem)
    requires
        call_ensures(CompactItem::from_item_with_cap, (item, cap), r),
    ensures
        shows_item(r, *item, cap as nat),
{
    lemma_shows_item(r, *item, cap as nat);
}

/// A list of items has one compact record for each item, in the same order.
pub proof fn law_compact_items(items: &Vec<ZoteroItem>, cap: usize, r: Vec<CompactItem>)
    requires
        call_ensures(compact_items, (items, cap), r),
    ensures
        r@.len() == items@.len(),
        forall|i: int| 0 <= i < items@.len() ==> shows_item(#[trigger] r@[i], items@[i], cap as nat),
{
    assert forall|i: int| 0 <= i < items@.len() implies shows_item(
        #[trigger] r@[i],
        items@[i],
        cap as nat,
    ) by {
        lemma_shows_item(r@[i], items@[i], cap as nat);
    }
}

/// What stands for an optional text: the text, or null.
pub open spec fn written(t: Option<String>, v: Option<JsonView>) -> bool {
    &&& t is Some ==> v == Some(JsonView::Text(t->0@))
    &&& t is None ==> v == Some(JsonView::Null)
}

/// A creator is written as an object with its type and names, null where one is absent,
/// and nothing else.
pub proof fn law_written_creator(c: Creator, k: Seq<char>)
    ensures
        written(c.creator_type, field(creator_json(c), "creatorType"@)),
        written(c.first_name, field(creator_json(c), "firstName"@)),
        written(c.last_name, field(creator_json(c), "lastName"@)),
        written(c.name, field(creator_json(c), "name"@)),
        k != "creatorType"@ && k != "firstName"@ && k != "lastName"@ && k != "name"@ ==> field(
            creator_json(c),
            k,
        ) is None,
{
    reveal_strlit("creatorType");
    reveal_strlit("firstName");
    reveal_strlit("lastName");
    reveal_strlit("name");
    let pairs = creator_pairs(c);
    law_object(pairs, "creatorType"@);
    law_object(pairs, "firstName"@);
    law_object(pairs, "lastName"@);
    law_object(pairs, "name"@);
    law_object(pairs, k);
    assert("creatorType"@.len() == 11 && "firstName"@.len() == 9 && "lastName"@.len() == 8
        && "name"@.len() == 4);
    assert(pairs[0].0 == "creatorType"@ && pairs[1].0 == "firstName"@ && pairs[2].0
        == "lastName"@ && pairs[3].0 == "name"@);
    assert(c.creator_type.deep_view() is Some <==> c.creator_type is Some);
    assert(c.first_name.deep_view() is Some <==> c.first_name is Some);
    assert(c.last_name.deep_view() is Some <==> c.last_name is Some);
    assert(c.name.deep_view() is Some <==> c.name is Some);
}

/// The names of tags are those that the tags carry, in their order; a list of tags is
/// written as objects that hold the name under `tag` and nothing else, in the order of
/// the names.
pub proof fn law_written_tags(tags: Seq<Tag>, names: Seq<Seq<char>>, k: Seq<char>)
    ensures
        tag_names(tags).len() == tags.len(),
        forall|i: int| 0 <= i < tags.len() ==> #[trigger] tag_names(tags)[i] == tags[i].tag@,
        tag_list(names) is Array,
        tag_list(names)->Array_0.len() == names.len(),
        forall|i: int|
            #![trigger tag_list(names)->Array_0[i]]
            0 <= i < names.len() ==> {
                &&& field(tag_list(names)->Array_0[i], "tag"@) == Some(JsonView::Text(names[i]))
                &&& k != "tag"@ ==> field(tag_list(names)->Array_0[i], k) is None
            },
{
    assert forall|i: int|
        #![trigger tag_list(names)->Array_0[i]]
        0 <= i < names.len() implies {
        &&& field(tag_list(names)->Array_0[i], "tag"@) == Some(JsonView::Text(names[i]))
        &&& k != "tag"@ ==> field(tag_list(names)->Array_0[i], k) is None
    } by {
        let pairs: Entries = seq![("tag"@, JsonView::Text(names[i]))];
        assert(tag_list(names)->Array_0[i] == tag_json(names[i]));
        assert(pairs[0].0 == "tag"@);
        law_object(pairs, "tag"@);
        law_object(pairs, k);
    }
}

/// The names of the declared fields differ from each other.
proof fn lemma_declared_names()
    ensures
        "key"@.len() == 3 && "key"@[0] == 'k',
        "version"@.len() == 7,
        "title"@.len() == 5,
        "itemType"@.len() == 8 && "itemType"@[0] == 'i',
        "date"@.len() == 4 && "date"@[0] == 'd',
        "abstractNote"@.len() == 12,
        "creators"@.len() == 8 && "creators"@[0] == 'c',
        "tags"@.len() == 4 && "tags"@[0] == 't',
        "collections"@.len() == 11,
        "doi"@.len() == 3 && "doi"@[0] == 'd',
        "url"@.len() == 3 && "url"@[0] == 'u',
{
    reveal_strlit("key");
    reveal_strlit("version");
    reveal_strlit("title");
    reveal_strlit("itemType");
    reveal_strlit("date");
    reveal_strlit("abstractNote");
    reveal_strlit("creators");
    reveal_strlit("tags");
    reveal_strlit("collections");
    reveal_strlit("doi");
    reveal_strlit("url");
}

proof fn lemma_declared(d: ItemData, i: int)
    requires
        increasing(keys(d.extra@)),
        0 <= i < 11,
        lookup(d.extra@, declared_pairs(d)[i].0) is None,
    ensures
        field(JsonView::Object(item_fields(d)), declared_pairs(d)[i].0) == Some(
            declared_pairs(d)[i].1,
        ),
{
    lemma_declared_names();
    let pairs = declared_pairs(d);
    assert(pairs.len() == 11);
    assert(pairs[0].0 == "key"@ && pairs[1].0 == "version"@ && pairs[2].0 == "title"@);
    assert(pairs[3].0 == "itemType"@ && pairs[4].0 == "date"@ && pairs[5].0 == "abstractNote"@);
    assert(pairs[6].0 == "creators"@ && pairs[7].0 == "tags"@ && pairs[8].0 == "collections"@);
    assert(pairs[9].0 == "doi"@ && pairs[10].0 == "url"@);
    let k = pairs[i].0;
    lemma_item_fields_keep_extra(d, k);
    law_object(pairs, k);
    assert forall|j: int| i < j < pairs.len() implies (#[trigger] pairs[j]).0 != k by {
        assert(i == 0 || i == 1 || i == 2 || i == 3 || i == 4 || i == 5 || i == 6 || i == 7 || i
            == 8 || i == 9 || i == 10);
        assert(j == 1 || j == 2 || j == 3 || j == 4 || j == 5 || j == 6 || j == 7 || j == 8 || j
            == 9 || j == 10);
    }
}

/// Whether none of the further fields of an item has the name of a declared one.
pub open spec fn undeclared(d: ItemData) -> bool {
    &&& lookup(d.extra@, "key"@) is None
    &&& lookup(d.extra@, "version"@) is None
    &&& lookup(d.extra@, "title"@) is None
    &&& lookup(d.extra@, "itemType"@) is None
    &&& lookup(d.extra@, "date"@) is None
    &&& lookup(d.extra@, "abstractNote"@) is None
    &&& lookup(d.extra@, "creators"@) is None
    &&& lookup(d.extra@, "tags"@) is None
    &&& lookup(d.extra@, "collections"@) is None
    &&& lookup(d.extra@, "doi"@) is None
    &&& lookup(d.extra@, "url"@) is None
}

/// The fields of an item are written under the names of the API, null where an optional
/// one is absent.
pub proof fn law_item_fields(d: ItemData, i: int)
    requires
        increasing(keys(d.extra@)),
        undeclared(d),
    ensures
        ({
            let j = JsonView::Object(item_fields(d));
            &&& field(j, "key"@) == Some(JsonView::Text(d.key@))
            &&& d.version is Some ==> field(j, "version"@) == Some(JsonView::Unsigned(d.version->0))
            &&& d.version is None ==> field(j, "version"@) == Some(JsonView::Null)
            &&& written(d.title, field(j, "title"@))
            &&& written(d.item_type, field(j, "itemType"@))
            &&& written(d.date, field(j, "date"@))
            &&& written(d.abstract_note, field(j, "abstractNote"@))
            &&& written(d.doi, field(j, "doi"@))
            &&& written(d.url, field(j, "url"@))
            &&& field(j, "creators"@) matches Some(JsonView::Array(a)) && a.len()
                == d.creators@.len() && (0 <= i < a.len() ==> a[i] == creator_json(d.creators@[i]))
            &&& field(j, "tags"@) matches Some(JsonView::Array(a)) && a.len() == d.tags@.len() && (0
                <= i < a.len() ==> field(a[i], "tag"@) == Some(JsonView::Text(d.tags@[i].tag@)))
            &&& field(j, "collections"@) matches Some(JsonView::Array(a)) && a.len()
                == d.collections@.len() && (0 <= i < a.len() ==> a[i] == JsonView::Text(
                d.collections@[i]@,
            ))
        }),
{
    lemma_declared(d, 0);
    lemma_declared(d, 1);
    lemma_declared(d, 2);
    lemma_declared(d, 3);
    lemma_declared(d, 4);
    lemma_declared(d, 5);
    lemma_declared(d, 6);
    lemma_declared(d, 7);
    lemma_declared(d, 8);
    lemma_declared(d, 9);
    lemma_declared(d, 10);
    law_written_tags(d.tags@, tag_names(d.tags@), "tag"@);
    if 0 <= i < d.tags@.len() {
        assert(tag_names(d.tags@)[i] == d.tags@[i].tag@);
        assert(field(tag_list(tag_names(d.tags@))->Array_0[i], "tag"@) == Some(
            JsonView::Text(d.tags@[i].tag@),
        ));
    }
    if 0 <= i < d.collections@.len() {
        assert(texts(d.collections@)[i] == d.collections@[i]@);
    }
}

/// A field of an item that is not declared stands under its own name with its own value,
/// and there is no field that the item does not have.
pub proof fn law_item_extra(d: ItemData, k: Seq<char>)
    requires
        increasing(keys(d.extra@)),
    ensures
        lookup(d.extra@, k) is Some ==> field(JsonView::Object(item_fields(d)), k) == lookup(
            d.extra@,
            k,
        ),
        lookup(d.extra@, k) is None && k != "key"@ && k != "version"@ && k != "title"@ && k
            != "itemType"@ && k != "date"@ && k != "abstractNote"@ && k != "creators"@ && k
            != "tags"@ && k != "collections"@ && k != "doi"@ && k != "url"@ ==> field(
            JsonView::Object(item_fields(d)),
            k,
        ) is None,
{
    lemma_item_fields_keep_extra(d, k);
    law_object(declared_pairs(d), k);
}

} // verus!
