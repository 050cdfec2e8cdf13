//! JSON values as the library reads and writes them.

use crate::text::{
    before, comes_before, increasing, lemma_before_irreflexive, lemma_increasing_unique,
    lemma_rank, lemma_rank_is, lemma_with_text, rank, same_text, texts, with_text,
};
use vstd::prelude::*;

verus! {

/// A JSON value.
#[derive(Debug)]
pub enum Json {
    Null,
    Bool(bool),
    /// An integer from zero up.
    Unsigned(u64),
    /// An integer below zero.
    Negative(i64),
    /// A number that no 64-bit integer holds, as `serde_json` writes it.
    Decimal(String),
    Text(String),
    Array(Vec<Json>),
    Object(JsonObject),
}

/// A JSON object: its entries in increasing order of their keys, each key once.
#[derive(Debug)]
pub struct JsonObject {
    entries: Vec<(String, Json)>,
}

/// The mathematical value of a [`Json`].
pub enum JsonView {
    Null,
    Bool(bool),
    Unsigned(u64),
    Negative(i64),
    Decimal(Seq<char>),
    Text(Seq<char>),
    Array(Seq<JsonView>),
    Object(Entries),
}

/// The entries of an object: keys with their values.
pub type Entries = Seq<(Seq<char>, JsonView)>;

/// What a value holds.
pub open spec fn json_view(j: Json) -> JsonView
    decreases j,
{
    match j {
        Json::Null => JsonView::Null,
        Json::Bool(b) => JsonView::Bool(b),
        Json::Unsigned(n) => JsonView::Unsigned(n),
        Json::Negative(n) => JsonView::Negative(n),
        Json::Decimal(t) => JsonView::Decimal(t@),
        Json::Text(t) => JsonView::Text(t@),
        Json::Array(v) => JsonView::Array(
            Seq::new(
                v@.len(),
                |i: int|
                    if 0 <= i < v@.len() {
                        json_view(v@[i])
                    } else {
                        JsonView::Null
                    },
            ),
        ),
        Json::Object(o) => JsonView::Object(object_view(o)),
    }
}

/// What an object holds.
pub closed spec fn object_view(o: JsonObject) -> Entries
    decreases o,
{
    Seq::new(
        o.entries@.len(),
        |i: int|
            if 0 <= i < o.entries@.len() {
                (o.entries@[i].0@, json_view(o.entries@[i].1))
            } else {
                (Seq::empty(), JsonView::Null)
            },
    )
}

impl View for Json {
    type V = JsonView;

    open spec fn view(&self) -> JsonView {
        json_view(*self)
    }
}

impl View for JsonObject {
    type V = Entries;

    open spec fn view(&self) -> Entries {
        object_view(*self)
    }
}

/// The values of a list.
pub open spec fn views(v: Seq<Json>) -> Seq<JsonView> {
    v.map_values(|j: Json| j@)
}

/// The value of an array is the list of the values of its items.
pub proof fn lemma_array_view(v: Vec<Json>)
    ensures
        Json::Array(v)@ == JsonView::Array(views(v@)),
{
    assert(Json::Array(v)@->Array_0 =~= views(v@));
}

/// The keys of the entries, in their order.
pub open spec fn keys(e: Entries) -> Seq<Seq<char>> {
    e.map_values(|p: (Seq<char>, JsonView)| p.0)
}

/// The value under a key, if there is one.
pub open spec fn lookup(e: Entries, k: Seq<char>) -> Option<JsonView>
    decreases e.len(),
{
    if e.len() == 0 {
        None
    } else if e[0].0 == k {
        Some(e[0].1)
    } else {
        lookup(e.skip(1), k)
    }
}

/// The entries with the value of `k` set to `v`.
pub open spec fn put(e: Entries, k: Seq<char>, v: JsonView) -> Entries {
    let p = rank(keys(e), k);
    if p < e.len() && e[p].0 == k {
        e.update(p, (k, v))
    } else {
        e.insert(p, (k, v))
    }
}

/// The entries after each of the pairs was put in, in turn.
pub open spec fn put_all(e: Entries, pairs: Entries) -> Entries
    decreases pairs.len(),
{
    if pairs.len() == 0 {
        e
    } else {
        put(put_all(e, pairs.drop_last()), pairs.last().0, pairs.last().1)
    }
}

/// The object that is written with these pairs: the last of each key counts.
pub open spec fn object(pairs: Entries) -> Entries {
    put_all(Seq::empty(), pairs)
}

/// Where a lookup finds a value, some entry holds it; where it finds none, no
/// entry has the key.
pub proof fn lemma_lookup(e: Entries, k: Seq<char>)
    ensures
        lookup(e, k) is Some ==> exists|i: int|
            0 <= i < e.len() && #[trigger] e[i] == (k, lookup(e, k)->0),
        lookup(e, k) is None <==> !keys(e).contains(k),
    decreases e.len(),
{
    if e.len() > 0 {
        let rest = e.skip(1);
        lemma_lookup(rest, k);
        if e[0].0 == k {
            assert(keys(e)[0] == k);
            assert(e[0] == (k, lookup(e, k)->0));
        } else {
            if lookup(rest, k) is Some {
                let i = choose|i: int|
                    0 <= i < rest.len() && #[trigger] rest[i] == (k, lookup(rest, k)->0);
                assert(e[i + 1] == (k, lookup(e, k)->0));
            }
            if keys(e).contains(k) {
                let i = keys(e).index_of(k);
                assert(keys(rest)[i - 1] == k);
            }
            if keys(rest).contains(k) {
                assert(keys(e)[keys(rest).index_of(k) + 1] == k);
            }
        }
    }
}

/// In an object a lookup of an entry's key finds that entry's value.
pub proof fn lemma_lookup_entry(e: Entries, i: int)
    requires
        increasing(keys(e)),
        0 <= i < e.len(),
    ensures
        lookup(e, e[i].0) == Some(e[i].1),
{
    let k = e[i].0;
    lemma_lookup(e, k);
    assert(keys(e)[i] == k);
    assert(keys(e).contains(k));
    let j = choose|j: int| 0 <= j < e.len() && #[trigger] e[j] == (k, lookup(e, k)->0);
    assert(keys(e)[j] == k);
    lemma_before_irreflexive(k);
    if i < j {
        assert(before(keys(e)[i], keys(e)[j]));
    } else if j < i {
        assert(before(keys(e)[j], keys(e)[i]));
    }
}

/// The last entry of an object has a key of its own.
pub proof fn lemma_lookup_last(e: Entries, k: Seq<char>)
    requires
        increasing(keys(e)),
        e.len() > 0,
    ensures
        increasing(keys(e.drop_last())),
        lookup(e, k) == (if k == e.last().0 {
            Some(e.last().1)
        } else {
            lookup(e.drop_last(), k)
        }),
        lookup(e.drop_last(), e.last().0) is None,
{
    let front = e.drop_last();
    let n = e.len() - 1;
    assert(keys(front) =~= keys(e).drop_last());
    assert forall|i: int, j: int| 0 <= i < j < keys(front).len() implies before(
        #[trigger] keys(front)[i],
        #[trigger] keys(front)[j],
    ) by {
        assert(before(keys(e)[i], keys(e)[j]));
    }
    lemma_lookup_entry(e, n);
    lemma_lookup(front, e.last().0);
    if keys(front).contains(e.last().0) {
        let i = keys(front).index_of(e.last().0);
        assert(before(keys(e)[i], keys(e)[n]));
        lemma_before_irreflexive(e.last().0);
    }
    if k != e.last().0 {
        lemma_lookup(e, k);
        lemma_lookup(front, k);
        if lookup(front, k) is Some {
            let i = choose|i: int|
                0 <= i < front.len() && #[trigger] front[i] == (k, lookup(front, k)->0);
            assert(e[i] == front[i]);
            lemma_lookup_entry(e, i);
        } else if lookup(e, k) is Some {
            let i = choose|i: int| 0 <= i < e.len() && #[trigger] e[i] == (k, lookup(e, k)->0);
            assert(keys(front)[i] == k);
        }
    }
}

/// Two objects that hold the same value under every key are the same.
pub proof fn lemma_object_unique(a: Entries, b: Entries)
    requires
        increasing(keys(a)),
        increasing(keys(b)),
        forall|k: Seq<char>| #[trigger] lookup(a, k) == lookup(b, k),
    ensures
        a == b,
{
    assert forall|k: Seq<char>| #[trigger] keys(a).contains(k) <==> keys(b).contains(k) by {
        lemma_lookup(a, k);
        lemma_lookup(b, k);
        assert(lookup(a, k) == lookup(b, k));
    }
    lemma_increasing_unique(keys(a), keys(b));
    assert(a.len() == keys(a).len() && b.len() == keys(b).len());
    assert forall|i: int| 0 <= i < a.len() implies #[trigger] a[i] == b[i] by {
        assert(keys(a)[i] == keys(b)[i]);
        lemma_lookup_entry(a, i);
        lemma_lookup_entry(b, i);
        assert(lookup(a, a[i].0) == lookup(b, a[i].0));
    }
    assert(a =~= b);
}

/// Putting a value under a key changes that key and no other.
pub proof fn lemma_put(e: Entries, k: Seq<char>, v: JsonView)
    requires
        increasing(keys(e)),
    ensures
        increasing(keys(put(e, k, v))),
        forall|x: Seq<char>| #[trigger]
            lookup(put(e, k, v), x) == (if x == k {
                Some(v)
            } else {
                lookup(e, x)
            }),
{
    let p = rank(keys(e), k);
    let r = put(e, k, v);
    lemma_rank(keys(e), k);
    lemma_with_text(keys(e), k);
    assert(keys(r) =~= with_text(keys(e), k)) by {
        if p < e.len() {
            assert(keys(e)[p] == e[p].0);
        }
    }
    assert forall|x: Seq<char>| #[trigger] lookup(r, x) == (if x == k {
        Some(v)
    } else {
        lookup(e, x)
    }) by {
        lemma_lookup(e, x);
        lemma_lookup(r, x);
        assert(with_text(keys(e), k).contains(x) <==> keys(e).contains(x) || x == k);
        if x == k {
            assert(r[p] == (k, v));
            lemma_lookup_entry(r, p);
        } else if lookup(e, x) is Some {
            let i = choose|i: int| 0 <= i < e.len() && #[trigger] e[i] == (x, lookup(e, x)->0);
            let j = if p < e.len() && e[p].0 == k || i < p {
                i
            } else {
                i + 1
            };
            assert(r[j] == e[i]);
            lemma_lookup_entry(r, j);
        }
    }
}

/// An object written with pairs is an object.
pub proof fn lemma_put_all(e: Entries, pairs: Entries)
    requires
        increasing(keys(e)),
    ensures
        increasing(keys(put_all(e, pairs))),
    decreases pairs.len(),
{
    if pairs.len() > 0 {
        lemma_put_all(e, pairs.drop_last());
        lemma_put(put_all(e, pairs.drop_last()), pairs.last().0, pairs.last().1);
    }
}

/// Putting pairs in one after the other, in two parts.
pub proof fn lemma_put_all_split(e: Entries, first: Entries, second: Entries)
    ensures
        put_all(e, first + second) == put_all(put_all(e, first), second),
    decreases second.len(),
{
    let all = first + second;
    if second.len() == 0 {
        assert(all =~= first);
    } else {
        assert(all.drop_last() =~= first + second.drop_last());
        assert(all.last() == second.last());
        lemma_put_all_split(e, first, second.drop_last());
    }
}

/// Of the pairs that are put in, the last one of a key counts.
pub proof fn lemma_put_all_last(e: Entries, pairs: Entries, i: int)
    requires
        increasing(keys(e)),
        0 <= i < pairs.len(),
        forall|j: int| i < j < pairs.len() ==> (#[trigger] pairs[j]).0 != pairs[i].0,
    ensures
        lookup(put_all(e, pairs), pairs[i].0) == Some(pairs[i].1),
    decreases pairs.len(),
{
    let front = pairs.drop_last();
    let last = pairs.last();
    lemma_put_all(e, front);
    lemma_put(put_all(e, front), last.0, last.1);
    assert(lookup(put(put_all(e, front), last.0, last.1), pairs[i].0) == (if pairs[i].0 == last.0 {
        Some(last.1)
    } else {
        lookup(put_all(e, front), pairs[i].0)
    }));
    if i < front.len() {
        assert(last == pairs[pairs.len() - 1]);
        assert forall|j: int| i < j < front.len() implies (#[trigger] front[j]).0 != front[i].0 by {
            assert(front[j] == pairs[j]);
        }
        lemma_put_all_last(e, front, i);
    }
}

/// Where the entries of an object are put in, each stands under its key, and the
/// other keys keep what they had.
pub proof fn lemma_put_object(e: Entries, o: Entries, k: Seq<char>)
    requires
        increasing(keys(e)),
        increasing(keys(o)),
    ensures
        lookup(put_all(e, o), k) == (match lookup(o, k) {
            Some(v) => Some(v),
            None => lookup(e, k),
        }),
    decreases o.len(),
{
    if o.len() > 0 {
        let front = o.drop_last();
        lemma_lookup_last(o, k);
        lemma_put_object(e, front, k);
        lemma_put_all(e, front);
        lemma_put(put_all(e, front), o.last().0, o.last().1);
        assert(lookup(put(put_all(e, front), o.last().0, o.last().1), k) == (if k == o.last().0 {
            Some(o.last().1)
        } else {
            lookup(put_all(e, front), k)
        }));
    }
}

impl JsonObject {
    #[verifier::type_invariant]
    spec fn ordered(self) -> bool {
        increasing(keys(self@))
    }

    /// An object without entries.
    pub fn new() -> (r: JsonObject)
        ensures
            r@ == Entries::empty(),
    {
        let entries: Vec<(String, Json)> = Vec::new();
        proof {
            let r = JsonObject { entries };
            assert(r@ =~= Seq::empty());
        }
        JsonObject { entries }
    }

    /// The number of entries.
    pub fn len(&self) -> (r: usize)
        ensures
            r == self@.len(),
    {
        self.entries.len()
    }

    /// The key of the entry at a position.
    pub fn key_at(&self, i: usize) -> (r: &str)
        requires
            i < self@.len(),
        ensures
            r@ == self@[i as int].0,
            increasing(keys(self@)),
    {
        proof {
            use_type_invariant(self);
        }
        self.entries[i].0.as_str()
    }

    /// The value of the entry at a position.
    pub fn value_at(&self, i: usize) -> (r: &Json)
        requires
            i < self@.len(),
        ensures
            r@ == self@[i as int].1,
    {
        &self.entries[i].1
    }

    /// The value under a key.
    pub fn get(&self, key: &str) -> (r: Option<&Json>)
        ensures
            lookup(self@, key@) == (match r {
                Some(v) => Some(v@),
                None => None,
            }),
    {
        let mut i: usize = 0;
        assert(self@.skip(0) =~= self@);
        while i < self.entries.len()
            invariant
                i <= self.entries.len(),
                self@.len() == self.entries.len(),
                lookup(self@, key@) == lookup(self@.skip(i as int), key@),
            decreases self.entries.len() - i,
        {
            assert(self@.skip(i as int)[0] == self@[i as int]);
            assert(self@.skip(i as int).skip(1) =~= self@.skip(i + 1));
            if same_text(self.entries[i].0.as_str(), key) {
                return Some(&self.entries[i].1);
            }
            i += 1;
        }
        None
    }

    /// Sets the value under a key.
    pub fn insert(&mut self, key: String, value: Json)
        ensures
            final(self)@ == put(old(self)@, key@, value@),
            increasing(keys(final(self)@)),
    {
        proof {
            use_type_invariant(&*self);
            lemma_put(self@, key@, value@);
        }
        let ghost e = self@;
        let ghost v = value@;
        let ghost k = key@;
        let mut p: usize = 0;
        while p < self.entries.len() && comes_before(self.entries[p].0.as_str(), key.as_str())
            invariant
                p <= self.entries.len(),
                self@ == e,
                e.len() == self.entries.len(),
                k == key@,
                forall|i: int| 0 <= i < p ==> before(#[trigger] keys(e)[i], k),
            decreases self.entries.len() - p,
        {
            assert(keys(e)[p as int] == self.entries@[p as int].0@);
            p += 1;
        }
        proof {
            if p < self.entries.len() {
                assert(keys(e)[p as int] == self.entries@[p as int].0@);
            }
            lemma_rank_is(keys(e), k, p as int);
        }
        let mut entries: Vec<(String, Json)> = Vec::new();
        assert(JsonObject { entries }@ =~= Seq::empty());
        std::mem::swap(&mut entries, &mut self.entries);
        if p < entries.len() && same_text(entries[p].0.as_str(), key.as_str()) {
            entries.set(p, (key, value));
        } else {
            entries.insert(p, (key, value));
        }
        assert(JsonObject { entries }@ =~= put(e, k, v));
        self.entries = entries;
    }
}

impl Json {
    /// A text value.
    pub fn text(s: &str) -> (r: Json)
        ensures
            r@ == JsonView::Text(s@),
    {
        Json::Text(s.to_owned())
    }

    /// A text value, or null where there is no text.
    pub fn optional_text(s: &Option<String>) -> (r: Json)
        ensures
            r@ == text_or_null(s.deep_view()),
    {
        match s {
            Some(t) => Json::Text(t.clone()),
            None => Json::Null,
        }
    }

    /// An array of text values.
    pub fn text_array(v: &Vec<String>) -> (r: Json)
        ensures
            r@ == text_list(texts(v@)),
    {
        let mut out: Vec<Json> = Vec::new();
        let mut i: usize = 0;
        while i < v.len()
            invariant
                i <= v.len(),
                out.len() == i,
                forall|j: int| 0 <= j < i ==> (#[trigger] out@[j])@ == JsonView::Text(v@[j]@),
            decreases v.len() - i,
        {
            out.push(Json::Text(v[i].clone()));
            i += 1;
        }
        proof {
            lemma_array_view(out);
            assert(views(out@) =~= text_list(texts(v@))->Array_0);
        }
        Json::Array(out)
    }
}

/// A text, or null where there is none.
pub open spec fn text_or_null(t: Option<Seq<char>>) -> JsonView {
    match t {
        Some(t) => JsonView::Text(t),
        None => JsonView::Null,
    }
}

/// An array of texts.
pub open spec fn text_list(v: Seq<Seq<char>>) -> JsonView {
    JsonView::Array(v.map_values(|t: Seq<char>| JsonView::Text(t)))
}

/// Puts the pair at a position of `all` into an object that was written with the
/// pairs in front of it.
pub(crate) fn put_field(
    o: &mut JsonObject,
    Ghost(all): Ghost<Entries>,
    Ghost(n): Ghost<int>,
    key: &str,
    value: Json,
)
    requires
        0 <= n < all.len(),
        old(o)@ == object(all.take(n)),
        all[n] == (key@, value@),
    ensures
        final(o)@ == object(all.take(n + 1)),
{
    assert(all.take(n + 1).drop_last() =~= all.take(n));
    o.insert(key.to_owned(), value);
}

/// The object of a single entry.
pub fn single(key: &str, value: Json) -> (r: JsonObject)
    ensures
        r@ == object(seq![(key@, value@)]),
{
    let ghost all = seq![(key@, value@)];
    let mut o = JsonObject::new();
    assert(all.take(0) =~= Entries::empty());
    put_field(&mut o, Ghost(all), Ghost(0), key, value);
    assert(all.take(1) =~= all);
    o
}

impl Clone for Json {
    fn clone(&self) -> (r: Json)
        ensures
            r@ == self@,
        decreases self,
    {
        match self {
            Json::Null => Json::Null,
            Json::Bool(b) => Json::Bool(*b),
            Json::Unsigned(n) => Json::Unsigned(*n),
            Json::Negative(n) => Json::Negative(*n),
            Json::Decimal(t) => Json::Decimal(t.clone()),
            Json::Text(t) => Json::Text(t.clone()),
            Json::Array(v) => {
                let mut out: Vec<Json> = Vec::new();
                let mut i: usize = 0;
                while i < v.len()
                    invariant
                        i <= v.len(),
                        self is Array,
                        *v == self->Array_0,
                        out.len() == i,
                        forall|j: int| 0 <= j < i ==> (#[trigger] out@[j])@ == v@[j]@,
                    decreases v.len() - i,
                {
                    out.push(v[i].clone());
                    i += 1;
                }
                assert(Json::Array(out)@->Array_0 =~= self@->Array_0);
                Json::Array(out)
            },
            Json::Object(o) => Json::Object(o.clone()),
        }
    }
}

impl Clone for JsonObject {
    fn clone(&self) -> (r: JsonObject)
        ensures
            r@ == self@,
        decreases self,
    {
        proof {
            use_type_invariant(self);
        }
        let mut entries: Vec<(String, Json)> = Vec::new();
        let mut i: usize = 0;
        while i < self.entries.len()
            invariant
                i <= self.entries.len(),
                entries.len() == i,
                forall|j: int|
                    0 <= j < i ==> (#[trigger] entries@[j]).0@ == self.entries@[j].0@
                        && entries@[j].1@ == self.entries@[j].1@,
            decreases self.entries.len() - i,
        {
            let e = &self.entries[i];
            let key = e.0.clone();
            let value = e.1.clone();
            entries.push((key, value));
            i += 1;
        }
        assert(JsonObject { entries }@ =~= self@);
        JsonObject { entries }
    }
}

/// The text of a decimal number that is zero.
pub open spec fn zero_text(t: Seq<char>) -> bool {
    t == "0.0"@ || t == "-0.0"@
}

/// Whether two values are equal: numbers by their value, everything else part
/// by part.
pub open spec fn same(a: JsonView, b: JsonView) -> bool
    decreases a,
{
    match (a, b) {
        (JsonView::Null, JsonView::Null) => true,
        (JsonView::Bool(x), JsonView::Bool(y)) => x == y,
        (JsonView::Unsigned(x), JsonView::Unsigned(y)) => x == y,
        (JsonView::Unsigned(x), JsonView::Negative(y)) => x == y,
        (JsonView::Negative(x), JsonView::Unsigned(y)) => x == y,
        (JsonView::Negative(x), JsonView::Negative(y)) => x == y,
        (JsonView::Decimal(x), JsonView::Decimal(y)) => x == y || zero_text(x) && zero_text(y),
        (JsonView::Text(x), JsonView::Text(y)) => x == y,
        (JsonView::Array(x), JsonView::Array(y)) => {
            &&& x.len() == y.len()
            &&& forall|i: int| 0 <= i < x.len() ==> same(#[trigger] x[i], y[i])
        },
        (JsonView::Object(x), JsonView::Object(y)) => {
            &&& x.len() == y.len()
            &&& forall|i: int|
                0 <= i < x.len() ==> (#[trigger] x[i]).0 == y[i].0 && same(x[i].1, y[i].1)
        },
        _ => false,
    }
}

/// Every value is equal to itself.
pub proof fn lemma_same_reflexive(a: JsonView)
    ensures
        same(a, a),
    decreases a,
{
    match a {
        JsonView::Array(x) => {
            assert forall|i: int| 0 <= i < x.len() implies same(#[trigger] x[i], x[i]) by {
                lemma_same_reflexive(x[i]);
            }
        },
        JsonView::Object(x) => {
            assert forall|i: int| 0 <= i < x.len() implies same((#[trigger] x[i]).1, x[i].1) by {
                lemma_same_reflexive(x[i].1);
            }
        },
        _ => {},
    }
}

fn is_zero_text(t: &str) -> (r: bool)
    ensures
        r == zero_text(t@),
{
    same_text(t, "0.0") || same_text(t, "-0.0")
}

impl Json {
    /// Whether two values are equal, as [`same`] says.
    pub fn equals(&self, other: &Json) -> (r: bool)
        ensures
            r == same(self@, other@),
        decreases self,
    {
        match (self, other) {
            (Json::Null, Json::Null) => true,
            (Json::Bool(x), Json::Bool(y)) => *x == *y,
            (Json::Unsigned(x), Json::Unsigned(y)) => *x == *y,
            (Json::Unsigned(x), Json::Negative(y)) => *y >= 0 && *x == *y as u64,
            (Json::Negative(x), Json::Unsigned(y)) => *x >= 0 && *x as u64 == *y,
            (Json::Negative(x), Json::Negative(y)) => *x == *y,
            (Json::Decimal(x), Json::Decimal(y)) => {
                *x == *y || is_zero_text(x.as_str()) && is_zero_text(y.as_str())
            },
            (Json::Text(x), Json::Text(y)) => *x == *y,
            (Json::Array(x), Json::Array(y)) => {
                if x.len() != y.len() {
                    return false;
                }
                let mut i: usize = 0;
                while i < x.len()
                    invariant
                        i <= x.len(),
                        x.len() == y.len(),
                        self is Array,
                        *x == self->Array_0,
                        other is Array,
                        *y == other->Array_0,
                        forall|j: int|
                            0 <= j < i ==> same(#[trigger] self@->Array_0[j], other@->Array_0[j]),
                    decreases x.len() - i,
                {
                    assert(self@->Array_0[i as int] == x@[i as int]@);
                    if !x[i].equals(&y[i]) {
                        return false;
                    }
                    i += 1;
                }
                true
            },
            (Json::Object(x), Json::Object(y)) => x.equals(y),
            _ => false,
        }
    }

    /// The value under a key, where this is an object that has the key.
    pub fn get(&self, key: &str) -> (r: Option<&Json>)
        ensures
            field(self@, key@) == (match r {
                Some(v) => Some(v@),
                None => None,
            }),
    {
        match self {
            Json::Object(o) => o.get(key),
            _ => None,
        }
    }

    /// The characters, where this is a text.
    pub fn as_str(&self) -> (r: Option<&str>)
        ensures
            text_of(self@) == (match r {
                Some(t) => Some(t@),
                None => None,
            }),
    {
        match self {
            Json::Text(t) => Some(t.as_str()),
            _ => None,
        }
    }

    /// The number, where this is an integer from zero up.
    pub fn as_u64(&self) -> (r: Option<u64>)
        ensures
            r == unsigned_of(self@),
    {
        match self {
            Json::Unsigned(n) => Some(*n),
            Json::Negative(n) => if *n >= 0 {
                Some(*n as u64)
            } else {
                None
            },
            _ => None,
        }
    }

    /// The items, where this is an array.
    pub fn as_array(&self) -> (r: Option<&Vec<Json>>)
        ensures
            match r {
                Some(v) => self@ == JsonView::Array(views(v@)),
                None => !(self@ is Array),
            },
    {
        match self {
            Json::Array(v) => {
                proof {
                    lemma_array_view(*v);
                }
                Some(v)
            },
            _ => None,
        }
    }
}

impl JsonObject {
    fn equals(&self, other: &JsonObject) -> (r: bool)
        ensures
            r == same(JsonView::Object(self@), JsonView::Object(other@)),
        decreases self,
    {
        if self.entries.len() != other.entries.len() {
            return false;
        }
        let mut i: usize = 0;
        while i < self.entries.len()
            invariant
                i <= self.entries.len(),
                self.entries.len() == other.entries.len(),
                forall|j: int|
                    0 <= j < i ==> (#[trigger] self@[j]).0 == other@[j].0 && same(
                        self@[j].1,
                        other@[j].1,
                    ),
            decreases self.entries.len() - i,
        {
            let x = &self.entries[i];
            let y = &other.entries[i];
            assert(self@[i as int] == (x.0@, x.1@));
            assert(other@[i as int] == (y.0@, y.1@));
            if x.0 != y.0 || !x.1.equals(&y.1) {
                return false;
            }
            i += 1;
        }
        true
    }
}

/// The value under a key of an object.
pub open spec fn field(j: JsonView, k: Seq<char>) -> Option<JsonView> {
    match j {
        JsonView::Object(e) => lookup(e, k),
        _ => None,
    }
}

/// The characters of a text.
pub open spec fn text_of(j: JsonView) -> Option<Seq<char>> {
    match j {
        JsonView::Text(t) => Some(t),
        _ => None,
    }
}

/// The number of an integer from zero up.
pub open spec fn unsigned_of(j: JsonView) -> Option<u64> {
    match j {
        JsonView::Unsigned(n) => Some(n),
        JsonView::Negative(n) if n >= 0 => Some(n as u64),
        _ => None,
    }
}

/// The value type of `serde_json`, which stands in the conversions only.
#[verifier::external_type_specification]
#[verifier::external_body]
pub struct ExSerdeValue(serde_json::Value);

/// The object type of `serde_json`, which stands in the conversions only.
#[verifier::external_type_specification]
#[verifier::external_body]
#[verifier::reject_recursive_types(K)]
#[verifier::reject_recursive_types(V)]
pub struct ExSerdeMap<K, V>(serde_json::Map<K, V>);

/// The text that `serde_json` writes for a value in its compact format.
pub uninterp spec fn compact_text(j: JsonView) -> Seq<char>;

/// The text that `serde_json` writes for a value in its pretty format, or what it says
/// where it writes none.
pub uninterp spec fn pretty_text(j: JsonView) -> Result<Seq<char>, Seq<char>>;

/// The same value as a `serde_json::Value`, made with the constructors and the
/// `From` and `FromIterator` impls of `serde_json`. A decimal number goes through
/// the parser of `serde_json::Number`; a text that it refuses becomes null.
/// Nothing is claimed of the result.
#[verifier::external_body]
fn serde_value(j: &Json) -> (r: serde_json::Value) {
    match j {
        Json::Null => serde_json::Value::Null,
        Json::Bool(b) => serde_json::Value::from(*b),
        Json::Unsigned(n) => serde_json::Value::from(*n),
        Json::Negative(n) => serde_json::Value::from(*n),
        Json::Decimal(t) => serde_json::Value::from(t.parse::<serde_json::Number>().ok()),
        Json::Text(t) => serde_json::Value::from(t.as_str()),
        Json::Array(v) => v.iter().map(serde_value).collect(),
        Json::Object(o) => o.entries.iter().map(|e| (e.0.clone(), serde_value(&e.1))).collect(),
    }
}

/// The value that `serde_json` reads from a text, or what it says where the text is
/// no JSON.
pub uninterp spec fn parsed_value(text: Seq<char>) -> Result<JsonView, Seq<char>>;

/// The values that `serde_json` reads from the text of an array, or what it says
/// where the text is none.
pub uninterp spec fn parsed_list(text: Seq<char>) -> Result<Seq<JsonView>, Seq<char>>;

/// The same value as a `Json`. A number that no 64-bit integer holds is kept as the
/// text that the `Display` impl of `serde_json::Number` writes. Nothing is claimed of
/// the result.
#[verifier::external_body]
fn from_serde(v: serde_json::Value) -> (r: Json) {
    match v {
        serde_json::Value::Null => Json::Null,
        serde_json::Value::Bool(b) => Json::Bool(b),
        serde_json::Value::Number(n) => match (n.as_u64(), n.as_i64()) {
            (Some(n), _) => Json::Unsigned(n),
            (None, Some(n)) => Json::Negative(n),
            (None, None) => Json::Decimal(n.to_string()),
        },
        serde_json::Value::String(t) => Json::Text(t),
        serde_json::Value::Array(v) => Json::Array(v.into_iter().map(from_serde).collect()),
        serde_json::Value::Object(m) => Json::Object(object_from_serde(m)),
    }
}

/// The same object as a `JsonObject`. Nothing is claimed of the result.
#[verifier::external_body]
fn object_from_serde(m: serde_json::Map<String, serde_json::Value>) -> (r: JsonObject) {
    let mut o = JsonObject::new();
    m.into_iter().for_each(|(key, value)| o.insert(key, from_serde(value)));
    o
}

/// Calls `serde_json::from_str` for a single value; what it returns depends on the
/// text alone.
#[verifier::external_body]
pub(crate) fn parse_value(text: &str) -> (r: Result<Json, String>)
    ensures
        parsed_value(text@) == (match r {
            Ok(j) => Ok(j@),
            Err(why) => Err(why@),
        }),
{
    serde_json::from_str::<serde_json::Value>(text).map(from_serde).map_err(|e| e.to_string())
}

/// Calls `serde_json::from_str` for an array of values; what it returns depends on
/// the text alone.
#[verifier::external_body]
pub(crate) fn parse_list(text: &str) -> (r: Result<Vec<Json>, String>)
    ensures
        parsed_list(text@) == (match r {
            Ok(v) => Ok(views(v@)),
            Err(why) => Err(why@),
        }),
{
    match serde_json::from_str::<Vec<serde_json::Value>>(text) {
        Ok(v) => Ok(v.into_iter().map(from_serde).collect()),
        Err(e) => Err(e.to_string()),
    }
}

impl Json {
    /// The value that a text holds, or what is wrong with the text.
    pub fn parse(text: &str) -> (r: Result<Json, String>)
        ensures
            parsed_value(text@) == (match r {
                Ok(j) => Ok(j@),
                Err(why) => Err(why@),
            }),
    {
        parse_value(text)
    }

    /// Calls the `Display` impl of `serde_json::Value`, which writes the compact
    /// format; the text depends on the value alone.
    #[verifier::external_body]
    pub(crate) fn write_compact(&self) -> (r: String)
        ensures
            r@ == compact_text(self@),
    {
        serde_value(self).to_string()
    }

    /// Calls `serde_json::to_string_pretty`; what it returns depends on the value alone.
    #[verifier::external_body]
    pub(crate) fn write_pretty(&self) -> (r: Result<String, String>)
        ensures
            pretty_text(self@) == (match r {
                Ok(text) => Ok(text@),
                Err(why) => Err(why@),
            }),
    {
        serde_json::to_string_pretty(&serde_value(self)).map_err(|e| e.to_string())
    }

    /// The value in compact JSON.
    pub fn to_text(&self) -> (r: String)
        ensures
            r@ == compact_text(self@),
    {
        self.write_compact()
    }
}

} // verus!
