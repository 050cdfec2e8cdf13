//! Library items as the Zotero API describes them, and the compact records made
//! from them.

use crate::json::{
    keys, lemma_array_view, lemma_put_all, lemma_put_all_last, lemma_put_all_split, lemma_put_object, lookup, object,
    put_field, single, text_list, text_or_null, views, Entries, Json, JsonObject, JsonView,
};
use crate::text::{increasing, parse_size, same_text, size_of_text, texts};
use vstd::prelude::*;
use vstd::string::*;

verus! {

/// How many characters of an abstract a compact record shows where nothing else
/// is set.
pub const DEFAULT_ABSTRACT_MAX_CHARS: usize = 500;

/// The cap on the abstract of compact records, which is read once: none before it is
/// first asked for, and the same ever after.
#[derive(Debug)]
pub struct AbstractCap {
    cap: Option<usize>,
}

impl View for AbstractCap {
    type V = Option<usize>;

    closed spec fn view(&self) -> Option<usize> {
        self.cap
    }
}

impl AbstractCap {
    /// A cap that was not read yet.
    pub fn new() -> (r: AbstractCap)
        ensures
            r@ is None,
    {
        AbstractCap { cap: None }
    }
}

/// The cap that is read: the one that was read before, else that of the setting.
pub open spec fn cap_read(cap: Option<usize>, setting: Option<Seq<char>>) -> usize {
    match cap {
        Some(c) => c,
        None => abstract_cap(setting),
    }
}

/// Reads the cap on the abstract of compact records, with the present value of the
/// environment variable `ZOTERO_ABSTRACT_MAX_CHARS` if it is set. A value that is no
/// number counts as not set; a cap of 0 leaves the abstract out. What was read first
/// stays.
pub fn abstract_max_chars(cap: &mut AbstractCap, setting: Option<&str>) -> (r: usize)
    ensures
        r == cap_read(old(cap)@, setting.deep_view()),
        final(cap)@ == Some(r),
{
    let n: usize = match cap.cap {
        Some(n) => n,
        None => match setting {
            Some(s) => match parse_size(s) {
                Some(n) => n,
                None => DEFAULT_ABSTRACT_MAX_CHARS,
            },
            None => DEFAULT_ABSTRACT_MAX_CHARS,
        },
    };
    cap.cap = Some(n);
    n
}

/// What is read one time after the other, each time with the setting of that time.
pub open spec fn caps_read(cap: Option<usize>, settings: Seq<Option<Seq<char>>>) -> Seq<usize>
    decreases settings.len(),
{
    if settings.len() == 0 {
        Seq::empty()
    } else {
        let n = cap_read(cap, settings[0]);
        seq![n] + caps_read(Some(n), settings.skip(1))
    }
}

proof fn lemma_cap_stays(n: usize, settings: Seq<Option<Seq<char>>>)
    ensures
        caps_read(Some(n), settings).len() == settings.len(),
        forall|i: int| 0 <= i < settings.len() ==> #[trigger] caps_read(Some(n), settings)[i] == n,
    decreases settings.len(),
{
    if settings.len() > 0 {
        lemma_cap_stays(n, settings.skip(1));
    }
}

/// The setting of the first reading holds for every later one, whatever the setting is
/// by then.
pub proof fn lemma_first_setting_stays(settings: Seq<Option<Seq<char>>>, i: int)
    requires
        0 <= i < settings.len(),
    ensures
        caps_read(None, settings)[i] == abstract_cap(settings[0]),
{
    lemma_cap_stays(abstract_cap(settings[0]), settings.skip(1));
}

/// The cap that a setting stands for.
pub open spec fn abstract_cap(setting: Option<Seq<char>>) -> usize {
    match setting {
        Some(s) => match size_of_text(s) {
            Some(n) => n,
            None => DEFAULT_ABSTRACT_MAX_CHARS,
        },
        None => DEFAULT_ABSTRACT_MAX_CHARS,
    }
}

/// An abstract cut to `cap` characters: nothing where the cap is 0 or the text is
/// empty, the whole text where it fits, else its first `cap` characters and an
/// ellipsis.
pub open spec fn truncated(text: Seq<char>, cap: nat) -> Option<Seq<char>> {
    if cap == 0 || text.len() == 0 {
        None
    } else if text.len() <= cap {
        Some(text)
    } else {
        Some(text.take(cap as int) + "..."@)
    }
}

/// A cut abstract begins with what it was cut from and is longer than the cap by no
/// more than the ellipsis; one that is not longer than the cap is the whole text.
pub proof fn lemma_truncated(text: Seq<char>, cap: nat)
    ensures
        truncated(text, cap) matches Some(t) ==> {
            &&& t.len() <= cap + 3
            &&& t.len() > cap ==> t.take(cap as int) == text.take(cap as int)
            &&& t.len() <= cap ==> t == text
        },
{
    reveal_strlit("...");
    if let Some(t) = truncated(text, cap) {
        if t.len() > cap {
            assert(t.take(cap as int) =~= text.take(cap as int));
        }
    }
}

/// Cuts an abstract as [`truncated`] says.
pub fn truncate_abstract(text: &str, cap: usize) -> (r: Option<String>)
    ensures
        r.deep_view() == truncated(text@, cap as nat),
{
    let n = text.unicode_len();
    if cap == 0 || n == 0 {
        return None;
    }
    if n <= cap {
        Some(text.to_owned())
    } else {
        let mut out = text.substring_char(0, cap).to_owned();
        assert(text@.subrange(0, cap as int) =~= text@.take(cap as int));
        out.append("...");
        Some(out)
    }
}

/// The data of an item. The commonly used fields are declared; `extra` holds
/// every other field under the name that the API gives it.
#[derive(Debug, Clone)]
pub struct ItemData {
    pub key: String,
    pub version: Option<u64>,
    pub title: Option<String>,
    pub item_type: Option<String>,
    pub date: Option<String>,
    pub abstract_note: Option<String>,
    pub creators: Vec<Creator>,
    pub tags: Vec<Tag>,
    pub collections: Vec<String>,
    pub doi: Option<String>,
    pub url: Option<String>,
    pub extra: JsonObject,
}

/// A person or an institution with a part in an item.
#[derive(Debug, Clone)]
pub struct Creator {
    pub creator_type: Option<String>,
    pub first_name: Option<String>,
    pub last_name: Option<String>,
    pub name: Option<String>,
}

/// A tag of an item.
#[derive(Debug, Clone)]
pub struct Tag {
    pub tag: String,
}

/// An item with its key and version.
#[derive(Debug, Clone)]
pub struct ZoteroItem {
    pub key: String,
    pub version: u64,
    pub data: ItemData,
}

impl Creator {
    /// The name under which a creator is shown: "last, first", the last name
    /// alone, the name of an institution, else "Unknown".
    pub open spec fn shown_name(self) -> Seq<char> {
        match (self.last_name, self.first_name, self.name) {
            (Some(last), Some(first), _) => last@ + ", "@ + first@,
            (Some(last), None, _) => last@,
            (None, None, Some(name)) => name@,
            _ => "Unknown"@,
        }
    }

    /// Whether the creator is one of the authors.
    pub open spec fn is_author(self) -> bool {
        self.creator_type.deep_view() == Some("author"@)
    }

    /// The name under which the creator is shown.
    pub fn display_name(&self) -> (r: String)
        ensures
            r@ == self.shown_name(),
    {
        match (&self.last_name, &self.first_name, &self.name) {
            (Some(last), Some(first), _) => {
                let mut out = last.clone();
                out.append(", ");
                out.append(first.as_str());
                out
            },
            (Some(last), None, _) => last.clone(),
            (None, None, Some(name)) => name.clone(),
            _ => "Unknown".to_owned(),
        }
    }
}

/// The shown names of the authors among the creators, in their order.
pub open spec fn author_names(creators: Seq<Creator>) -> Seq<Seq<char>> {
    creators.filter(|c: Creator| c.is_author()).map_values(|c: Creator| c.shown_name())
}

/// Lists the shown names of the authors.
pub fn authors(creators: &Vec<Creator>) -> (r: Vec<String>)
    ensures
        texts(r@) == author_names(creators@),
{
    let mut out: Vec<String> = Vec::new();
    let mut i: usize = 0;
    proof {
        reveal(Seq::filter);
        assert(creators@.take(0) =~= Seq::empty());
        assert(texts(out@) =~= author_names(creators@.take(0)));
    }
    while i < creators.len()
        invariant
            i <= creators.len(),
            texts(out@) == author_names(creators@.take(i as int)),
        decreases creators.len() - i,
    {
        let c = &creators[i];
        let author = match &c.creator_type {
            Some(t) => same_text(t.as_str(), "author"),
            None => false,
        };
        assert(author == c.is_author());
        let ghost earlier = out@;
        if author {
            out.push(c.display_name());
            assert(texts(out@) =~= texts(earlier).push(c.shown_name()));
        }
        proof {
            lemma_author_names_push(creators@.take(i as int), *c);
            assert(creators@.take(i + 1) =~= creators@.take(i as int).push(*c));
        }
        i += 1;
    }
    assert(creators@.take(creators.len() as int) =~= creators@);
    out
}

proof fn lemma_author_names_push(creators: Seq<Creator>, c: Creator)
    ensures
        author_names(creators.push(c)) == (if c.is_author() {
            author_names(creators).push(c.shown_name())
        } else {
            author_names(creators)
        }),
{
    reveal(Seq::filter);
    assert(creators.push(c).drop_last() =~= creators);
    let p = |c: Creator| c.is_author();
    let f = creators.filter(p);
    assert(creators.push(c).filter(p) == (if c.is_author() {
        f.push(c)
    } else {
        f
    }));
    assert(author_names(creators.push(c)) =~= (if c.is_author() {
        author_names(creators).push(c.shown_name())
    } else {
        author_names(creators)
    }));
}

/// The short form of an item for lists.
#[derive(Debug)]
pub struct CompactItem {
    pub key: String,
    pub title: Option<String>,
    pub item_type: Option<String>,
    pub date: Option<String>,
    pub authors: Vec<String>,
    pub abstract_note: Option<String>,
}

impl CompactItem {
    /// Whether this is the compact record of an item under a cap on the abstract.
    pub open spec fn is_of(self, item: ZoteroItem, cap: nat) -> bool {
        &&& self.key@ == item.key@
        &&& self.title.deep_view() == item.data.title.deep_view()
        &&& self.item_type.deep_view() == item.data.item_type.deep_view()
        &&& self.date.deep_view() == item.data.date.deep_view()
        &&& texts(self.authors@) == author_names(item.data.creators@)
        &&& self.abstract_note.deep_view() == (match item.data.abstract_note {
            Some(t) => truncated(t@, cap),
            None => None,
        })
    }

    /// The compact record of an item, with the abstract cut to the cap that
    /// [`abstract_max_chars`] reads.
    pub fn from_item(
        item: &ZoteroItem,
        cap: &mut AbstractCap,
        setting: Option<&str>,
    ) -> (r: CompactItem)
        ensures
            r.is_of(*item, cap_read(old(cap)@, setting.deep_view()) as nat),
            final(cap)@ == Some(cap_read(old(cap)@, setting.deep_view())),
    {
        Self::from_item_with_cap(item, abstract_max_chars(cap, setting))
    }

    /// The compact record of an item, with the abstract cut to `abstract_cap`
    /// characters.
    pub fn from_item_with_cap(item: &ZoteroItem, abstract_cap: usize) -> (r: CompactItem)
        ensures
            r.is_of(*item, abstract_cap as nat),
    {
        CompactItem {
            key: item.key.clone(),
            title: item.data.title.clone(),
            item_type: item.data.item_type.clone(),
            date: item.data.date.clone(),
            authors: authors(&item.data.creators),
            abstract_note: match &item.data.abstract_note {
                Some(t) => truncate_abstract(t.as_str(), abstract_cap),
                None => None,
            },
        }
    }
}

/// Whether the records are the compact records of the items, one by one.
pub open spec fn are_compact(records: Seq<CompactItem>, items: Seq<ZoteroItem>, cap: nat) -> bool {
    &&& records.len() == items.len()
    &&& forall|i: int| 0 <= i < items.len() ==> (#[trigger] records[i]).is_of(items[i], cap)
}

/// The compact records of a list of items under a cap on the abstract.
pub fn compact_items(items: &Vec<ZoteroItem>, cap: usize) -> (r: Vec<CompactItem>)
    ensures
        are_compact(r@, items@, cap as nat),
{
    let mut out: Vec<CompactItem> = Vec::new();
    let mut i: usize = 0;
    while i < items.len()
        invariant
            i <= items.len(),
            out.len() == i,
            forall|j: int| 0 <= j < i ==> (#[trigger] out@[j]).is_of(items@[j], cap as nat),
        decreases items.len() - i,
    {
        out.push(CompactItem::from_item_with_cap(&items[i], cap));
        i += 1;
    }
    out
}

/// The fields of a creator under the names of the API.
pub open spec fn creator_pairs(c: Creator) -> Entries {
    seq![
        ("creatorType"@, text_or_null(c.creator_type.deep_view())),
        ("firstName"@, text_or_null(c.first_name.deep_view())),
        ("lastName"@, text_or_null(c.last_name.deep_view())),
        ("name"@, text_or_null(c.name.deep_view())),
    ]
}

/// A creator as the API writes it.
pub open spec fn creator_json(c: Creator) -> JsonView {
    JsonView::Object(object(creator_pairs(c)))
}

/// A tag of a given name as the API writes it.
pub open spec fn tag_json(name: Seq<char>) -> JsonView {
    JsonView::Object(object(seq![("tag"@, JsonView::Text(name))]))
}

/// The tags of the given names as the API writes them.
pub open spec fn tag_list(names: Seq<Seq<char>>) -> JsonView {
    JsonView::Array(names.map_values(|n: Seq<char>| tag_json(n)))
}

/// The names of tags.
pub open spec fn tag_names(tags: Seq<Tag>) -> Seq<Seq<char>> {
    tags.map_values(|t: Tag| t.tag@)
}

/// The declared fields of an item in the order of its declaration, under the names of
/// the API.
pub open spec fn declared_pairs(d: ItemData) -> Entries {
    seq![
        ("key"@, JsonView::Text(d.key@)),
        ("version"@, match d.version {
            Some(n) => JsonView::Unsigned(n),
            None => JsonView::Null,
        }),
        ("title"@, text_or_null(d.title.deep_view())),
        ("itemType"@, text_or_null(d.item_type.deep_view())),
        ("date"@, text_or_null(d.date.deep_view())),
        ("abstractNote"@, text_or_null(d.abstract_note.deep_view())),
        (
            "creators"@,
            JsonView::Array(d.creators@.map_values(|c: Creator| creator_json(c))),
        ),
        ("tags"@, tag_list(tag_names(d.tags@))),
        ("collections"@, text_list(texts(d.collections@))),
        ("doi"@, text_or_null(d.doi.deep_view())),
        ("url"@, text_or_null(d.url.deep_view())),
    ]
}

/// The fields of an item: the declared ones with the undeclared ones behind them.
pub open spec fn item_pairs(d: ItemData) -> Entries {
    declared_pairs(d) + d.extra@
}

/// The fields of an item as a JSON object.
pub open spec fn item_fields(d: ItemData) -> Entries {
    object(item_pairs(d))
}

/// No undeclared field of an item is lost: each stands under its name among the
/// fields, and beside them stand the declared ones.
pub proof fn lemma_item_fields_keep_extra(d: ItemData, k: Seq<char>)
    requires
        increasing(keys(d.extra@)),
    ensures
        lookup(item_fields(d), k) == (match lookup(d.extra@, k) {
            Some(v) => Some(v),
            None => lookup(object(declared_pairs(d)), k),
        }),
{
    lemma_put_all_split(Seq::empty(), declared_pairs(d), d.extra@);
    lemma_put_all(Seq::empty(), declared_pairs(d));
    lemma_put_object(object(declared_pairs(d)), d.extra@, k);
}

/// The tags of an item stand under `tags` and its collections under `collections`, unless
/// an undeclared field has that name.
pub proof fn lemma_item_lists(d: ItemData)
    requires
        increasing(keys(d.extra@)),
    ensures
        lookup(d.extra@, "tags"@) is None ==> lookup(item_fields(d), "tags"@) == Some(
            tag_list(tag_names(d.tags@)),
        ),
        lookup(d.extra@, "collections"@) is None ==> lookup(item_fields(d), "collections"@) == Some(
            text_list(texts(d.collections@)),
        ),
{
    reveal_strlit("tags");
    reveal_strlit("collections");
    reveal_strlit("doi");
    reveal_strlit("url");
    let pairs = declared_pairs(d);
    assert("tags"@.len() == 4 && "collections"@.len() == 11);
    assert("doi"@.len() == 3 && "url"@.len() == 3);
    assert(pairs.len() == 11);
    assert(pairs[7].0 == "tags"@ && pairs[8].0 == "collections"@);
    assert(pairs[9].0 == "doi"@ && pairs[10].0 == "url"@);
    assert forall|j: int| 7 < j < pairs.len() implies (#[trigger] pairs[j]).0 != "tags"@ by {
        assert(j == 8 || j == 9 || j == 10);
    }
    assert forall|j: int| 8 < j < pairs.len() implies (#[trigger] pairs[j]).0
        != "collections"@ by {
        assert(j == 9 || j == 10);
    }
    lemma_put_all_last(Seq::empty(), pairs, 7);
    lemma_put_all_last(Seq::empty(), pairs, 8);
    lemma_item_fields_keep_extra(d, "tags"@);
    lemma_item_fields_keep_extra(d, "collections"@);
}

/// Different names give different lists of tags.
pub proof fn lemma_tag_list_injective(a: Seq<Seq<char>>, b: Seq<Seq<char>>)
    requires
        tag_list(a) == tag_list(b),
    ensures
        a == b,
{
    let x = tag_list(a)->Array_0;
    let y = tag_list(b)->Array_0;
    assert(x.len() == a.len() && y.len() == b.len());
    assert forall|i: int| 0 <= i < a.len() implies a[i] == b[i] by {
        assert(x[i] == tag_json(a[i]));
        assert(y[i] == tag_json(b[i]));
        let p = seq![("tag"@, JsonView::Text(a[i]))];
        let q = seq![("tag"@, JsonView::Text(b[i]))];
        lemma_put_all_last(Seq::empty(), p, 0);
        lemma_put_all_last(Seq::empty(), q, 0);
        assert(p[0].1 == q[0].1);
    }
    assert(a =~= b);
}

/// Different texts give different lists.
pub proof fn lemma_text_list_injective(a: Seq<Seq<char>>, b: Seq<Seq<char>>)
    requires
        text_list(a) == text_list(b),
    ensures
        a == b,
{
    let x = text_list(a)->Array_0;
    let y = text_list(b)->Array_0;
    assert(x.len() == a.len() && y.len() == b.len());
    assert forall|i: int| 0 <= i < a.len() implies a[i] == b[i] by {
        assert(x[i] == JsonView::Text(a[i]));
        assert(y[i] == JsonView::Text(b[i]));
    }
    assert(a =~= b);
}

impl Creator {
    fn to_json(&self) -> (r: Json)
        ensures
            r@ == creator_json(*self),
    {
        let mut o = JsonObject::new();
        let ghost all = creator_pairs(*self);
        assert(all.take(0) =~= Entries::empty());
        put_field(
            &mut o,
            Ghost(all),
            Ghost(0),
            "creatorType",
            Json::optional_text(&self.creator_type),
        );
        put_field(&mut o, Ghost(all), Ghost(1), "firstName", Json::optional_text(&self.first_name));
        put_field(&mut o, Ghost(all), Ghost(2), "lastName", Json::optional_text(&self.last_name));
        put_field(&mut o, Ghost(all), Ghost(3), "name", Json::optional_text(&self.name));
        assert(all.take(4) =~= all);
        Json::Object(o)
    }
}

/// A list of tags as the API writes it.
pub fn tags_to_json(names: &Vec<String>) -> (r: Json)
    ensures
        r@ == tag_list(texts(names@)),
{
    let mut out: Vec<Json> = Vec::new();
    let mut i: usize = 0;
    while i < names.len()
        invariant
            i <= names.len(),
            out.len() == i,
            forall|j: int| 0 <= j < i ==> (#[trigger] out@[j])@ == tag_json(names@[j]@),
        decreases names.len() - i,
    {
        out.push(Json::Object(single("tag", Json::Text(names[i].clone()))));
        i += 1;
    }
    proof {
        lemma_array_view(out);
        assert(views(out@) =~= tag_list(texts(names@))->Array_0);
    }
    Json::Array(out)
}

/// The names of a list of tags.
pub fn names_of_tags(tags: &Vec<Tag>) -> (r: Vec<String>)
    ensures
        texts(r@) == tag_names(tags@),
{
    let mut out: Vec<String> = Vec::new();
    let mut i: usize = 0;
    while i < tags.len()
        invariant
            i <= tags.len(),
            out.len() == i,
            forall|j: int| 0 <= j < i ==> (#[trigger] out@[j])@ == tags@[j].tag@,
        decreases tags.len() - i,
    {
        out.push(tags[i].tag.clone());
        i += 1;
    }
    assert(texts(out@) =~= tag_names(tags@));
    out
}

impl ItemData {
    /// The fields of the item as a JSON object, under the names of the API.
    pub fn to_object(&self) -> (r: JsonObject)
        ensures
            r@ == item_fields(*self),
    {
        let mut creators: Vec<Json> = Vec::new();
        let mut i: usize = 0;
        while i < self.creators.len()
            invariant
                i <= self.creators.len(),
                creators.len() == i,
                forall|j: int|
                    0 <= j < i ==> (#[trigger] creators@[j])@ == creator_json(self.creators@[j]),
            decreases self.creators.len() - i,
        {
            creators.push(self.creators[i].to_json());
            i += 1;
        }
        proof {
            lemma_array_view(creators);
            assert(views(creators@) =~= self.creators@.map_values(|c: Creator| creator_json(c)));
        }
        let version = match self.version {
            Some(n) => Json::Unsigned(n),
            None => Json::Null,
        };
        let mut o = JsonObject::new();
        let ghost all = item_pairs(*self);
        assert(all.take(0) =~= Entries::empty());
        put_field(&mut o, Ghost(all), Ghost(0), "key", Json::Text(self.key.clone()));
        put_field(&mut o, Ghost(all), Ghost(1), "version", version);
        put_field(&mut o, Ghost(all), Ghost(2), "title", Json::optional_text(&self.title));
        put_field(&mut o, Ghost(all), Ghost(3), "itemType", Json::optional_text(&self.item_type));
        put_field(&mut o, Ghost(all), Ghost(4), "date", Json::optional_text(&self.date));
        put_field(
            &mut o,
            Ghost(all),
            Ghost(5),
            "abstractNote",
            Json::optional_text(&self.abstract_note),
        );
        put_field(&mut o, Ghost(all), Ghost(6), "creators", Json::Array(creators));
        put_field(&mut o, Ghost(all), Ghost(7), "tags", tags_to_json(&names_of_tags(&self.tags)));
        put_field(
            &mut o,
            Ghost(all),
            Ghost(8),
            "collections",
            Json::text_array(&self.collections),
        );
        put_field(&mut o, Ghost(all), Ghost(9), "doi", Json::optional_text(&self.doi));
        put_field(&mut o, Ghost(all), Ghost(10), "url", Json::optional_text(&self.url));
        let mut k: usize = 0;
        let n = self.extra.len();
        while k < n
            invariant
                k <= n,
                n == self.extra@.len(),
                all == item_pairs(*self),
                o@ == object(all.take(11 + k)),
            decreases n - k,
        {
            assert(all[11 + k] == self.extra@[k as int]);
            put_field(
                &mut o,
                Ghost(all),
                Ghost(11 + k),
                self.extra.key_at(k),
                self.extra.value_at(k).clone(),
            );
            k += 1;
        }
        assert(all.take(11 + n) =~= all);
        o
    }
}

/// The data of a collection of items.
#[derive(Debug, Clone)]
pub struct CollectionData {
    pub key: String,
    pub name: String,
    pub parent_collection: Option<Json>,
}

/// A collection of items with its key.
#[derive(Debug, Clone)]
pub struct ZoteroCollection {
    pub key: String,
    pub data: CollectionData,
}

/// The data of a saved search.
#[derive(Debug, Clone)]
pub struct SavedSearchData {
    pub key: String,
    pub name: String,
}

/// A saved search with its key.
#[derive(Debug, Clone)]
pub struct ZoteroSearch {
    pub key: String,
    pub data: SavedSearchData,
}

/// The indexed full text of an attachment. A plain-text attachment counts
/// characters, a PDF counts pages; the counters of the other kind are zero.
#[derive(Debug, Clone)]
pub struct FullText {
    pub content: String,
    pub indexed_chars: u64,
    pub total_chars: u64,
    pub indexed_pages: u64,
    pub total_pages: u64,
}

} // verus!
