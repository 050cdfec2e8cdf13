//! Laws of JSON values.

use crate::json::{
    field, keys, lemma_lookup, lemma_put, lemma_put_all, lemma_put_all_last, lookup, object, put,
    put_all, same, text_list, text_of, text_or_null, unsigned_of, views, Entries, Json, JsonObject,
    JsonView,
};
use crate::text::{before, increasing, lemma_before_irreflexive, lemma_rank, rank};
use vstd::prelude::*;
use vstd::string::*;

verus! {

/// A field of an object is the value of the first entry with its name.
pub proof fn law_field(e: Entries, k: Seq<char>, i: int)
    requires
        0 <= i < e.len(),
        e[i].0 == k,
        forall|j: int| 0 <= j < i ==> (#[trigger] e[j]).0 != k,
    ensures
        field(JsonView::Object(e), k) == Some(e[i].1),
        lookup(e, k) == Some(e[i].1),
    decreases i,
{
    if i > 0 {
        let rest = e.skip(1);
        assert(e[0].0 != k);
        assert forall|j: int| 0 <= j < i - 1 implies (#[trigger] rest[j]).0 != k by {
            assert(rest[j] == e[j + 1]);
        }
        law_field(rest, k, i - 1);
    }
}

/// An object without an entry of a name has no such field, and what is no object has no
/// field at all.
pub proof fn law_field_missing(v: JsonView, k: Seq<char>)
    requires
        v matches JsonView::Object(e) ==> forall|i: int|
            0 <= i < e.len() ==> (#[trigger] e[i]).0 != k,
    ensures
        field(v, k) is None,
        v matches JsonView::Object(e) ==> lookup(e, k) is None,
    decreases v->Object_0.len(),
{
    if let JsonView::Object(e) = v {
        if e.len() > 0 {
            let rest = e.skip(1);
            assert(e[0].0 != k);
            assert forall|j: int| 0 <= j < rest.len() implies (#[trigger] rest[j]).0 != k by {
                assert(rest[j] == e[j + 1]);
            }
            law_field_missing(JsonView::Object(rest), k);
        }
    }
}

/// Only a text is read as a text, and only an integer from zero up as such a number;
/// each is read as what it is.
pub proof fn law_plain_values(v: JsonView, t: Seq<char>, n: u64)
    ensures
        text_of(v) == Some(t) <==> v == JsonView::Text(t),
        unsigned_of(v) == Some(n) <==> v == JsonView::Unsigned(n) || (
        v matches JsonView::Negative(m) && m == n),
{
}

proof fn lemma_put_none(e: Entries, pairs: Entries, k: Seq<char>)
    requires
        increasing(keys(e)),
        forall|i: int| 0 <= i < pairs.len() ==> (#[trigger] pairs[i]).0 != k,
    ensures
        lookup(put_all(e, pairs), k) == lookup(e, k),
    decreases pairs.len(),
{
    if pairs.len() > 0 {
        let front = pairs.drop_last();
        let last = pairs.last();
        assert forall|i: int| 0 <= i < front.len() implies (#[trigger] front[i]).0 != k by {
            assert(front[i] == pairs[i]);
        }
        assert(last == pairs[pairs.len() - 1]);
        lemma_put_none(e, front, k);
        lemma_put_all(e, front);
        lemma_put(put_all(e, front), last.0, last.1);
        assert(lookup(put(put_all(e, front), last.0, last.1), k) == lookup(put_all(e, front), k));
    }
}

/// An object that is written with pairs holds under each name the value of the last pair
/// with that name, and nothing under a name that no pair has. Its entries stand in the
/// order of their names, and no name stands twice.
pub proof fn law_object(pairs: Entries, k: Seq<char>)
    ensures
        forall|i: int|
            0 <= i < pairs.len() && (#[trigger] pairs[i]).0 == k && (forall|j: int|
                i < j < pairs.len() ==> (#[trigger] pairs[j]).0 != k) ==> field(
                JsonView::Object(object(pairs)),
                k,
            ) == Some(pairs[i].1),
        (forall|i: int| 0 <= i < pairs.len() ==> (#[trigger] pairs[i]).0 != k) ==> field(
            JsonView::Object(object(pairs)),
            k,
        ) is None,
        forall|i: int, j: int|
            0 <= i < j < object(pairs).len() ==> before(
                (#[trigger] object(pairs)[i]).0,
                (#[trigger] object(pairs)[j]).0,
            ),
{
    let none = Entries::empty();
    assert(keys(none) =~= Seq::empty());
    lemma_put_all(none, pairs);
    let o = object(pairs);
    assert forall|i: int, j: int| 0 <= i < j < o.len() implies before(
        (#[trigger] o[i]).0,
        (#[trigger] o[j]).0,
    ) by {
        assert(keys(o)[i] == o[i].0 && keys(o)[j] == o[j].0);
    }
    assert forall|i: int|
        0 <= i < pairs.len() && (#[trigger] pairs[i]).0 == k && (forall|j: int|
            i < j < pairs.len() ==> (#[trigger] pairs[j]).0 != k) implies field(
        JsonView::Object(o),
        k,
    ) == Some(pairs[i].1) by {
        lemma_put_all_last(none, pairs, i);
    }
    if forall|i: int| 0 <= i < pairs.len() ==> (#[trigger] pairs[i]).0 != k {
        lemma_put_none(none, pairs, k);
    }
}

/// An absent text is written as null and any other text as itself; a list of texts is
/// written as the array of them, in their order.
pub proof fn law_written_texts(v: Seq<Seq<char>>, t: Seq<char>)
    ensures
        text_or_null(None) == JsonView::Null,
        text_or_null(Some(t)) == JsonView::Text(t),
        text_list(v) is Array,
        text_list(v)->Array_0.len() == v.len(),
        forall|i: int|
            0 <= i < v.len() ==> #[trigger] text_list(v)->Array_0[i] == JsonView::Text(v[i]),
{
}

/// The number that an integer stands for.
pub open spec fn integer(v: JsonView) -> Option<int> {
    match v {
        JsonView::Unsigned(n) => Some(n as int),
        JsonView::Negative(n) => Some(n as int),
        _ => None,
    }
}

/// Two values without parts and without decimal places are equal exactly where they are
/// the same truth value, the same text, both null, or integers of the same value.
pub proof fn law_equal_plain_values(a: JsonView, b: JsonView)
    requires
        !(a is Array) && !(a is Object) && !(a is Decimal),
    ensures
        same(a, b) <==> a == b || integer(a) is Some && integer(a) == integer(b),
{
}

/// Decimal numbers are equal where they are written alike, or where both are zero.
pub proof fn law_equal_decimals(s: Seq<char>, t: Seq<char>, b: JsonView)
    ensures
        same(JsonView::Decimal(s), JsonView::Decimal(t)) <==> s == t || (s == "0.0"@ || s
            == "-0.0"@) && (t == "0.0"@ || t == "-0.0"@),
        !(b is Decimal) ==> !same(JsonView::Decimal(s), b),
{
}

/// Arrays are equal where they are equally long and equal item by item.
pub proof fn law_equal_lists(x: Seq<JsonView>, y: Seq<JsonView>, u: JsonView, v: JsonView)
    ensures
        same(JsonView::Array(Seq::empty()), JsonView::Array(Seq::empty())),
        !same(JsonView::Array(Seq::empty()), JsonView::Array(y.push(v))),
        !same(JsonView::Array(x.push(u)), JsonView::Array(Seq::empty())),
        same(JsonView::Array(x.push(u)), JsonView::Array(y.push(v))) <==> same(
            JsonView::Array(x),
            JsonView::Array(y),
        ) && same(u, v),
        !(v is Array) ==> !same(JsonView::Array(x), v),
{
    reveal_with_fuel(same, 2);
    let a = x.push(u);
    let b = y.push(v);
    if same(JsonView::Array(a), JsonView::Array(b)) {
        assert forall|i: int| 0 <= i < x.len() implies same(#[trigger] x[i], y[i]) by {
            assert(a[i] == x[i] && b[i] == y[i]);
            assert(same(a[i], b[i]));
        }
        assert(same(a[x.len() as int], b[x.len() as int]));
    }
    if same(JsonView::Array(x), JsonView::Array(y)) && same(u, v) {
        assert forall|i: int| 0 <= i < a.len() implies same(#[trigger] a[i], b[i]) by {
            if i < x.len() {
                assert(a[i] == x[i] && b[i] == y[i]);
                assert(same(x[i], y[i]));
            }
        }
    }
}

/// Objects are equal where they have the same names in the same places and equal values
/// under them.
pub proof fn law_equal_objects(
    x: Entries,
    y: Entries,
    k: Seq<char>,
    l: Seq<char>,
    u: JsonView,
    v: JsonView,
)
    ensures
        same(JsonView::Object(Seq::empty()), JsonView::Object(Seq::empty())),
        !same(JsonView::Object(Seq::empty()), JsonView::Object(y.push((l, v)))),
        !same(JsonView::Object(x.push((k, u))), JsonView::Object(Seq::empty())),
        same(JsonView::Object(x.push((k, u))), JsonView::Object(y.push((l, v)))) <==> same(
            JsonView::Object(x),
            JsonView::Object(y),
        ) && k == l && same(u, v),
        !(v is Object) ==> !same(JsonView::Object(x), v),
{
    reveal_with_fuel(same, 2);
    let a = x.push((k, u));
    let b = y.push((l, v));
    if same(JsonView::Object(a), JsonView::Object(b)) {
        assert forall|i: int| 0 <= i < x.len() implies (#[trigger] x[i]).0 == y[i].0 && same(
            x[i].1,
            y[i].1,
        ) by {
            assert(a[i] == x[i] && b[i] == y[i]);
            assert(a[i].0 == b[i].0 && same(a[i].1, b[i].1));
        }
        assert(a[x.len() as int].0 == b[x.len() as int].0);
    }
    if same(JsonView::Object(x), JsonView::Object(y)) && k == l && same(u, v) {
        assert forall|i: int| 0 <= i < a.len() implies (#[trigger] a[i]).0 == b[i].0 && same(
            a[i].1,
            b[i].1,
        ) by {
            if i < x.len() {
                assert(a[i] == x[i] && b[i] == y[i]);
                assert(x[i].0 == y[i].0 && same(x[i].1, y[i].1));
            }
        }
    }
}

/// A field of the data of an item, where the item has data.
pub open spec fn inner(c: JsonView, k: Seq<char>) -> Option<JsonView> {
    if field(c, "data"@) is Some {
        field(field(c, "data"@)->0, k)
    } else {
        None
    }
}

/// The text that a field holds, and the empty text where it is missing or no text.
pub open spec fn text_in(v: Option<JsonView>) -> Seq<char> {
    match v {
        Some(JsonView::Text(t)) => t,
        _ => Seq::empty(),
    }
}

/// What a field holds, and the empty text where it is missing.
pub open spec fn value_in(v: Option<JsonView>) -> JsonView {
    if v is Some {
        v->0
    } else {
        JsonView::Text(Seq::empty())
    }
}

/// Putting a value under a name changes that name and no other, and keeps the entries in
/// the order of their names.
pub proof fn law_put(e: Entries, k: Seq<char>, v: JsonView, other: Seq<char>)
    requires
        increasing(keys(e)),
    ensures
        lookup(put(e, k, v), k) == Some(v),
        other != k ==> lookup(put(e, k, v), other) == lookup(e, other),
        increasing(keys(put(e, k, v))),
        lookup(e, k) is Some ==> put(e, k, v).len() == e.len(),
        lookup(e, k) is None ==> put(e, k, v).len() == e.len() + 1,
{
    lemma_put(e, k, v);
    lemma_lookup(e, k);
    lemma_lookup(put(e, k, v), k);
    let p = rank(keys(e), k);
    lemma_rank(keys(e), k);
    if p < e.len() && e[p].0 == k {
        assert(keys(e)[p] == k);
    } else if keys(e).contains(k) {
        let i = keys(e).index_of(k);
        lemma_before_irreflexive(k);
        if i < p {
            assert(before(keys(e)[i], k));
        } else if p < i {
            assert(before(keys(e)[p], keys(e)[i]));
        }
    }
}

/// The value of each kind of JSON is what it carries.
pub proof fn law_values(b: bool, n: u64, m: i64, t: String, v: Vec<Json>, o: JsonObject)
    ensures
        Json::Null@ == JsonView::Null,
        Json::Bool(b)@ == JsonView::Bool(b),
        Json::Unsigned(n)@ == JsonView::Unsigned(n),
        Json::Negative(m)@ == JsonView::Negative(m),
        Json::Decimal(t)@ == JsonView::Decimal(t@),
        Json::Text(t)@ == JsonView::Text(t@),
        Json::Object(o)@ == JsonView::Object(o@),
        Json::Array(v)@ is Array,
        Json::Array(v)@->Array_0.len() == v@.len(),
        forall|i: int| 0 <= i < v@.len() ==> #[trigger] Json::Array(v)@->Array_0[i] == v@[i]@,
{
}

/// A list of values has the values of its items, in their order.
pub proof fn law_views(v: Seq<Json>)
    ensures
        views(v).len() == v.len(),
        forall|i: int| 0 <= i < v.len() ==> #[trigger] views(v)[i] == v[i]@,
{
}

/// What is read of a value: the field of an object, the text, the number.
pub proof fn law_reading(
    v: &Json,
    k: &str,
    found: Option<&Json>,
    text: Option<&str>,
    number: Option<u64>,
)
    requires
        call_ensures(Json::get, (v, k), found),
        call_ensures(Json::as_str, (v,), text),
        call_ensures(Json::as_u64, (v,), number),
    ensures
        found is Some ==> field(v@, k@) == Some(found->0@),
        found is None ==> field(v@, k@) is None,
        text is Some <==> v is Text,
        text is Some ==> text->0@ == v@->Text_0,
        v is Unsigned ==> number == Some(v->Unsigned_0),
        v is Negative && v->Negative_0 < 0 ==> number is None,
        !(v is Unsigned) && !(v is Negative) ==> number is None,
{
    assert(text.deep_view() is Some <==> text is Some);
}

} // verus!
