//! Texts as sequences of characters: comparison and order, joining and cutting, decimal
//! numbers.

use vstd::prelude::*;
use vstd::string::*;
use vstd::utf8::*;

verus! {

/// The characters of a string slice, one by one.
pub fn characters(s: &str) -> (r: Vec<char>)
    ensures
        r@ == s@,
{
    let mut out: Vec<char> = Vec::new();
    for c in it: s.chars()
        invariant
            out@ == it.seq().take(it.index()),
            it.seq() == s@,
    {
        out.push(c);
    }
    out
}

/// Whether two string slices hold the same characters.
pub fn same_text(a: &str, b: &str) -> (r: bool)
    ensures
        r == (a@ == b@),
{
    a.to_owned() == b.to_owned()
}

/// Whether `a` comes strictly before `b` when characters are compared from the
/// left by code point and a proper prefix comes first.
pub open spec fn before(a: Seq<char>, b: Seq<char>) -> bool
    decreases a.len(),
{
    if b.len() == 0 {
        false
    } else if a.len() == 0 {
        true
    } else if a[0] == b[0] {
        before(a.skip(1), b.skip(1))
    } else {
        (a[0] as int) < (b[0] as int)
    }
}

/// No text comes before itself.
pub proof fn lemma_before_irreflexive(a: Seq<char>)
    ensures
        !before(a, a),
    decreases a.len(),
{
    if a.len() > 0 {
        lemma_before_irreflexive(a.skip(1));
    }
}

/// Of two different texts exactly one comes before the other.
pub proof fn lemma_before_total(a: Seq<char>, b: Seq<char>)
    ensures
        a != b ==> (before(a, b) <==> !before(b, a)),
        a == b ==> !before(a, b) && !before(b, a),
    decreases a.len(),
{
    if a == b {
        lemma_before_irreflexive(a);
    } else if a.len() > 0 && b.len() > 0 {
        if a[0] == b[0] {
            lemma_before_total(a.skip(1), b.skip(1));
            if a.skip(1) == b.skip(1) {
                assert(a =~= seq![a[0]] + a.skip(1));
                assert(b =~= seq![b[0]] + b.skip(1));
            }
        }
    } else if a.len() == 0 {
        if b.len() == 0 {
            assert(a =~= b);
        }
    }
}

/// The order is transitive.
pub proof fn lemma_before_transitive(a: Seq<char>, b: Seq<char>, c: Seq<char>)
    requires
        before(a, b),
        before(b, c),
    ensures
        before(a, c),
    decreases a.len(),
{
    if a.len() > 0 && a[0] == b[0] && b[0] == c[0] {
        lemma_before_transitive(a.skip(1), b.skip(1), c.skip(1));
    }
}

/// Whether `a` comes strictly before `b` in the order of [`before`].
pub fn comes_before(a: &str, b: &str) -> (r: bool)
    ensures
        r == before(a@, b@),
{
    let x = characters(a);
    let y = characters(b);
    let mut i: usize = 0;
    assert(x@.skip(0) =~= x@);
    assert(y@.skip(0) =~= y@);
    while i < x.len() && i < y.len()
        invariant
            i <= x.len(),
            i <= y.len(),
            x@ == a@,
            y@ == b@,
            before(a@, b@) == before(x@.skip(i as int), y@.skip(i as int)),
        decreases x.len() - i,
    {
        assert(x@.skip(i as int).skip(1) =~= x@.skip(i + 1));
        assert(y@.skip(i as int).skip(1) =~= y@.skip(i + 1));
        if x[i] != y[i] {
            return x[i] < y[i];
        }
        i += 1;
    }
    i < y.len()
}

/// The characters of each string of a list.
pub open spec fn texts(v: Seq<String>) -> Seq<Seq<char>> {
    v.map_values(|s: String| s@)
}

/// Whether the texts stand in strictly increasing order, so that none occurs
/// twice.
pub open spec fn increasing(s: Seq<Seq<char>>) -> bool {
    forall|i: int, j: int| 0 <= i < j < s.len() ==> before(#[trigger] s[i], #[trigger] s[j])
}

/// How many texts at the front of `s` come before `t`.
pub open spec fn rank(s: Seq<Seq<char>>, t: Seq<char>) -> int
    decreases s.len(),
{
    if s.len() > 0 && before(s[0], t) {
        1 + rank(s.skip(1), t)
    } else {
        0
    }
}

/// The list with `t` at its place, or as it is where `t` stands there already.
pub open spec fn with_text(s: Seq<Seq<char>>, t: Seq<char>) -> Seq<Seq<char>> {
    let p = rank(s, t);
    if p < s.len() && s[p] == t {
        s
    } else {
        s.insert(p, t)
    }
}

/// The texts of `s` in increasing order, each once.
pub open spec fn sorted_set(s: Seq<Seq<char>>) -> Seq<Seq<char>>
    decreases s.len(),
{
    if s.len() == 0 {
        Seq::empty()
    } else {
        with_text(sorted_set(s.drop_last()), s.last())
    }
}

/// What comes in front of the rank of `t` comes before `t`, and what stands at
/// that rank does not.
pub proof fn lemma_rank(s: Seq<Seq<char>>, t: Seq<char>)
    ensures
        0 <= rank(s, t) <= s.len(),
        forall|i: int| 0 <= i < rank(s, t) ==> before(#[trigger] s[i], t),
        rank(s, t) < s.len() ==> !before(s[rank(s, t)], t),
    decreases s.len(),
{
    if s.len() > 0 && before(s[0], t) {
        let rest = s.skip(1);
        lemma_rank(rest, t);
        assert forall|i: int| 0 <= i < rank(s, t) implies before(#[trigger] s[i], t) by {
            if i > 0 {
                assert(s[i] == rest[i - 1]);
            }
        }
        if rank(s, t) < s.len() {
            assert(s[rank(s, t)] == rest[rank(rest, t)]);
        }
    }
}

/// A position with nothing smaller behind it and only smaller texts in front of
/// it is the rank.
pub proof fn lemma_rank_is(s: Seq<Seq<char>>, t: Seq<char>, p: int)
    requires
        0 <= p <= s.len(),
        forall|i: int| 0 <= i < p ==> before(#[trigger] s[i], t),
        p < s.len() ==> !before(s[p], t),
    ensures
        rank(s, t) == p,
{
    lemma_rank(s, t);
}

/// Adding a text to an increasing list keeps it increasing and adds that text
/// and no other.
pub proof fn lemma_with_text(s: Seq<Seq<char>>, t: Seq<char>)
    requires
        increasing(s),
    ensures
        increasing(with_text(s, t)),
        forall|x: Seq<char>| #[trigger]
            with_text(s, t).contains(x) <==> s.contains(x) || x == t,
{
    lemma_rank(s, t);
    let p = rank(s, t);
    let r = with_text(s, t);
    if p < s.len() && s[p] == t {
        assert(s.contains(t));
    } else {
        assert forall|i: int| p <= i < s.len() implies before(t, #[trigger] s[i]) by {
            lemma_before_total(t, s[p]);
            if i > p {
                lemma_before_transitive(t, s[p], s[i]);
            }
        }
        assert forall|i: int, j: int| 0 <= i < j < r.len() implies before(
            #[trigger] r[i],
            #[trigger] r[j],
        ) by {
            if j < p {
                assert(before(s[i], s[j]));
            } else if j == p {
                assert(before(s[i], t));
            } else if i < p {
                assert(before(s[i], s[j - 1]));
            } else if i == p {
                assert(before(t, s[j - 1]));
            } else {
                assert(before(s[i - 1], s[j - 1]));
            }
        }
        assert forall|x: Seq<char>| #[trigger] r.contains(x) <==> s.contains(x) || x == t by {
            if s.contains(x) {
                let i = s.index_of(x);
                assert(r[if i < p { i } else { i + 1 }] == x);
            }
            if x == t {
                assert(r[p] == t);
            }
            if r.contains(x) {
                let i = r.index_of(x);
                if i < p {
                    assert(s[i] == x);
                } else if i > p {
                    assert(s[i - 1] == x);
                }
            }
        }
    }
}

/// The sorted set of a list is increasing and holds exactly the texts of the
/// list.
pub proof fn lemma_sorted_set(s: Seq<Seq<char>>)
    ensures
        increasing(sorted_set(s)),
        forall|x: Seq<char>| #[trigger] sorted_set(s).contains(x) <==> s.contains(x),
    decreases s.len(),
{
    if s.len() > 0 {
        let front = s.drop_last();
        lemma_sorted_set(front);
        lemma_with_text(sorted_set(front), s.last());
        assert forall|x: Seq<char>| #[trigger] sorted_set(s).contains(x) <==> s.contains(x) by {
            assert(sorted_set(s).contains(x) <==> sorted_set(front).contains(x) || x == s.last());
            if s.contains(x) && x != s.last() {
                let i = s.index_of(x);
                assert(front[i] == x);
            }
            if front.contains(x) {
                assert(s[front.index_of(x)] == x);
            }
            if x == s.last() {
                assert(s[s.len() - 1] == x);
            }
        }
    }
}

/// Two increasing lists of the same texts are the same list.
pub proof fn lemma_increasing_unique(a: Seq<Seq<char>>, b: Seq<Seq<char>>)
    requires
        increasing(a),
        increasing(b),
        forall|x: Seq<char>| #[trigger] a.contains(x) <==> b.contains(x),
    ensures
        a == b,
    decreases a.len(),
{
    if a.len() == 0 {
        if b.len() > 0 {
            assert(b.contains(b[0]));
            assert(a.contains(b[0]));
        }
        assert(a =~= b);
    } else {
        assert(a.contains(a[0]));
        assert(b.contains(a[0]));
        assert(b.contains(b[0]));
        assert(a.contains(b[0]));
        let j = b.index_of(a[0]);
        let i = a.index_of(b[0]);
        if j > 0 {
            assert(before(b[0], b[j]));
            lemma_before_total(a[0], b[0]);
            assert(before(a[0], a[i]) || i == 0);
        }
        assert(a[0] == b[0]);
        let x = a.skip(1);
        let y = b.skip(1);
        assert(increasing(x)) by {
            assert forall|i: int, j: int| 0 <= i < j < x.len() implies before(
                #[trigger] x[i],
                #[trigger] x[j],
            ) by {
                assert(before(a[i + 1], a[j + 1]));
            }
        }
        assert(increasing(y)) by {
            assert forall|i: int, j: int| 0 <= i < j < y.len() implies before(
                #[trigger] y[i],
                #[trigger] y[j],
            ) by {
                assert(before(b[i + 1], b[j + 1]));
            }
        }
        lemma_before_irreflexive(a[0]);
        assert forall|t: Seq<char>| #[trigger] x.contains(t) <==> y.contains(t) by {
            if x.contains(t) {
                let k = x.index_of(t);
                assert(a[k + 1] == t);
                assert(before(a[0], a[k + 1]));
                assert(a.contains(t));
                let m = b.index_of(t);
                assert(y[m - 1] == t);
            }
            if y.contains(t) {
                let k = y.index_of(t);
                assert(b[k + 1] == t);
                assert(before(b[0], b[k + 1]));
                assert(b.contains(t));
                assert(a.contains(t));
                let m = a.index_of(t);
                assert(x[m - 1] == t);
            }
        }
        lemma_increasing_unique(x, y);
        assert(a =~= seq![a[0]] + x);
        assert(b =~= seq![b[0]] + y);
    }
}

/// Puts `t` at its place in an increasing list, unless it is there.
pub fn add_text(v: &mut Vec<String>, t: &str)
    ensures
        texts(final(v)@) == with_text(texts(old(v)@), t@),
{
    let mut p: usize = 0;
    while p < v.len() && comes_before(v[p].as_str(), t)
        invariant
            p <= v.len(),
            v@ == old(v)@,
            forall|i: int| 0 <= i < p ==> before(#[trigger] texts(v@)[i], t@),
        decreases v.len() - p,
    {
        p += 1;
    }
    proof {
        lemma_rank_is(texts(v@), t@, p as int);
    }
    if p < v.len() && same_text(v[p].as_str(), t) {
        return;
    }
    v.insert(p, t.to_owned());
    assert(texts(v@) =~= texts(old(v)@).insert(p as int, t@));
}

/// The parts in order, with `sep` between each two of them.
pub open spec fn joined(parts: Seq<Seq<char>>, sep: Seq<char>) -> Seq<char>
    decreases parts.len(),
{
    if parts.len() == 0 {
        Seq::empty()
    } else {
        joined(parts.drop_last(), sep) + (if parts.len() == 1 {
            Seq::empty()
        } else {
            sep
        }) + parts.last()
    }
}

/// Joins the strings with `sep` between each two of them.
pub fn join(parts: &Vec<String>, sep: &str) -> (r: String)
    ensures
        r@ == joined(texts(parts@), sep@),
{
    let mut out = String::new();
    let mut i: usize = 0;
    let ghost all = texts(parts@);
    assert(all.take(0) =~= Seq::empty());
    while i < parts.len()
        invariant
            i <= parts.len(),
            all == texts(parts@),
            out@ == joined(all.take(i as int), sep@),
        decreases parts.len() - i,
    {
        assert(all.take(i + 1).drop_last() =~= all.take(i as int));
        if i > 0 {
            out.append(sep);
        }
        out.append(parts[i].as_str());
        assert(out@ =~= joined(all.take(i + 1), sep@));
        i += 1;
    }
    assert(all.take(all.len() as int) =~= all);
    out
}

/// Whether a text is among the strings.
pub fn has_text(v: &[String], t: &str) -> (r: bool)
    ensures
        r == texts(v@).contains(t@),
{
    let mut i: usize = 0;
    while i < v.len()
        invariant
            i <= v.len(),
            forall|j: int| 0 <= j < i ==> texts(v@)[j] != t@,
        decreases v.len() - i,
    {
        if same_text(v[i].as_str(), t) {
            assert(texts(v@)[i as int] == t@);
            return true;
        }
        i += 1;
    }
    false
}

/// Whether `c` occurs in the string.
pub fn has_character(s: &str, c: char) -> (r: bool)
    ensures
        r == s@.contains(c),
{
    let v = characters(s);
    let mut i: usize = 0;
    while i < v.len()
        invariant
            i <= v.len(),
            v@ == s@,
            forall|j: int| 0 <= j < i ==> v@[j] != c,
        decreases v.len() - i,
    {
        if v[i] == c {
            assert(s@[i as int] == c);
            return true;
        }
        i += 1;
    }
    false
}

/// What follows the prefix, where the string begins with it.
pub open spec fn after_prefix(s: Seq<char>, prefix: Seq<char>) -> Option<Seq<char>> {
    if prefix.len() <= s.len() && s.take(prefix.len() as int) == prefix {
        Some(s.skip(prefix.len() as int))
    } else {
        None
    }
}

/// What precedes the suffix, where the string ends with it.
pub open spec fn before_suffix(s: Seq<char>, suffix: Seq<char>) -> Option<Seq<char>> {
    if suffix.len() <= s.len() && s.skip(s.len() - suffix.len()) == suffix {
        Some(s.take(s.len() - suffix.len()))
    } else {
        None
    }
}

/// Takes the prefix off the string.
pub fn strip_prefix(s: &str, prefix: &str) -> (r: Option<String>)
    ensures
        r.deep_view() == after_prefix(s@, prefix@),
{
    let n = s.unicode_len();
    let m = prefix.unicode_len();
    if m <= n && same_text(s.substring_char(0, m), prefix) {
        let rest = s.substring_char(m, n);
        assert(s@.subrange(0, m as int) =~= s@.take(m as int));
        assert(s@.subrange(m as int, n as int) =~= s@.skip(m as int));
        Some(rest.to_owned())
    } else {
        proof {
            if m <= n {
                assert(s@.subrange(0, m as int) =~= s@.take(m as int));
            }
        }
        None
    }
}

/// Takes the suffix off the string.
pub fn strip_suffix(s: &str, suffix: &str) -> (r: Option<String>)
    ensures
        r.deep_view() == before_suffix(s@, suffix@),
{
    let n = s.unicode_len();
    let m = suffix.unicode_len();
    if m <= n && same_text(s.substring_char(n - m, n), suffix) {
        let rest = s.substring_char(0, n - m);
        assert(s@.subrange(n - m, n as int) =~= s@.skip(n - m));
        assert(s@.subrange(0, n - m) =~= s@.take(n - m));
        Some(rest.to_owned())
    } else {
        proof {
            if m <= n {
                assert(s@.subrange(n - m, n as int) =~= s@.skip(n - m));
            }
        }
        None
    }
}

/// The decimal digit of a number below ten.
pub open spec fn digit(d: nat) -> Seq<char> {
    if d == 0 {
        "0"@
    } else if d == 1 {
        "1"@
    } else if d == 2 {
        "2"@
    } else if d == 3 {
        "3"@
    } else if d == 4 {
        "4"@
    } else if d == 5 {
        "5"@
    } else if d == 6 {
        "6"@
    } else if d == 7 {
        "7"@
    } else if d == 8 {
        "8"@
    } else {
        "9"@
    }
}

/// A number in decimal digits, without leading zeros.
pub open spec fn decimal(n: nat) -> Seq<char>
    decreases n,
{
    if n < 10 {
        digit(n)
    } else {
        decimal(n / 10) + digit(n % 10)
    }
}

/// A signed number in decimal digits, with `-` in front of a negative one.
pub open spec fn signed_decimal(n: int) -> Seq<char> {
    if n < 0 {
        "-"@ + decimal((-n) as nat)
    } else {
        decimal(n as nat)
    }
}

fn digit_text(d: u64) -> (r: &'static str)
    requires
        d < 10,
    ensures
        r@ == digit(d as nat),
{
    if d == 0 {
        "0"
    } else if d == 1 {
        "1"
    } else if d == 2 {
        "2"
    } else if d == 3 {
        "3"
    } else if d == 4 {
        "4"
    } else if d == 5 {
        "5"
    } else if d == 6 {
        "6"
    } else if d == 7 {
        "7"
    } else if d == 8 {
        "8"
    } else {
        "9"
    }
}

/// Writes a number in decimal digits.
pub fn decimal_text(n: u64) -> (r: String)
    ensures
        r@ == decimal(n as nat),
    decreases n,
{
    if n < 10 {
        digit_text(n).to_owned()
    } else {
        let mut s = decimal_text(n / 10);
        s.append(digit_text(n % 10));
        s
    }
}

/// Writes a signed number in decimal digits.
pub fn signed_decimal_text(n: i64) -> (r: String)
    ensures
        r@ == signed_decimal(n as int),
{
    if n < 0 {
        let mut s = "-".to_owned();
        let m: u64 = if n == i64::MIN {
            9223372036854775808
        } else {
            (-n) as u64
        };
        s.append(decimal_text(m).as_str());
        s
    } else {
        decimal_text(n as u64)
    }
}

/// Whether every character is a decimal digit.
pub open spec fn all_digits(s: Seq<char>) -> bool {
    forall|i: int| 0 <= i < s.len() ==> '0' <= #[trigger] s[i] <= '9'
}

/// The number that a sequence of decimal digits writes.
pub open spec fn digits_value(s: Seq<char>) -> nat
    decreases s.len(),
{
    if s.len() == 0 {
        0
    } else {
        10 * digits_value(s.drop_last()) + ((s.last() as int - '0' as int) as nat)
    }
}

/// The number that a text writes: an optional `+`, then one digit or more, of
/// a value that a `usize` holds.
pub open spec fn size_of_text(s: Seq<char>) -> Option<usize> {
    let d = if s.len() > 0 && s[0] == '+' {
        s.skip(1)
    } else {
        s
    };
    if d.len() > 0 && all_digits(d) && digits_value(d) <= usize::MAX {
        Some(digits_value(d) as usize)
    } else {
        None
    }
}

proof fn lemma_digits_value_grows(s: Seq<char>, n: int)
    requires
        0 <= n <= s.len(),
    ensures
        digits_value(s.take(n)) <= digits_value(s),
    decreases s.len() - n,
{
    if n < s.len() {
        lemma_digits_value_grows(s, n + 1);
        assert(s.take(n + 1).drop_last() =~= s.take(n));
    } else {
        assert(s.take(n) =~= s);
    }
}

/// Reads a number as [`size_of_text`] describes it.
pub fn parse_size(s: &str) -> (r: Option<usize>)
    ensures
        r == size_of_text(s@),
{
    let v = characters(s);
    let start: usize = if v.len() > 0 && v[0] == '+' {
        1
    } else {
        0
    };
    let ghost d = s@.skip(start as int);
    assert(s@.skip(0) =~= s@);
    if start == v.len() {
        return None;
    }
    let mut n: usize = 0;
    let mut i: usize = start;
    assert(d.take(0) =~= Seq::empty());
    while i < v.len()
        invariant
            start <= i <= v.len(),
            start <= 1,
            v@ == s@,
            d == s@.skip(start as int),
            size_of_text(s@) == (if d.len() > 0 && all_digits(d) && digits_value(d) <= usize::MAX {
                Some(digits_value(d) as usize)
            } else {
                None
            }),
            n == digits_value(d.take(i - start)),
            all_digits(d.take(i - start)),
        decreases v.len() - i,
    {
        let c = v[i];
        assert(d[i - start] == c);
        if c < '0' || c > '9' {
            return None;
        }
        let k = character_digit(c);
        assert(d.take(i + 1 - start).drop_last() =~= d.take(i - start));
        assert(d.take(i + 1 - start).last() == c);
        proof {
            lemma_digits_value_grows(d, i + 1 - start);
        }
        if n > (usize::MAX - k) / 10 {
            assert(10 * n + k > usize::MAX);
            return None;
        }
        n = n * 10 + k;
        i += 1;
    }
    assert(d.take(d.len() as int) =~= d);
    Some(n)
}

fn character_digit(c: char) -> (r: usize)
    requires
        '0' <= c <= '9',
    ensures
        r == c as int - '0' as int,
{
    if c == '0' {
        0
    } else if c == '1' {
        1
    } else if c == '2' {
        2
    } else if c == '3' {
        3
    } else if c == '4' {
        4
    } else if c == '5' {
        5
    } else if c == '6' {
        6
    } else if c == '7' {
        7
    } else if c == '8' {
        8
    } else {
        9
    }
}

/// A text of at most 60 bytes as it is, a longer one cut after 57 bytes and
/// followed by an ellipsis.
pub open spec fn shortened(s: Seq<char>) -> Seq<char> {
    if encode_utf8(s).len() <= 60 {
        s
    } else {
        decode_utf8(encode_utf8(s).subrange(0, 57)) + "..."@
    }
}

/// Whether the cut of [`shortened`], if there is one, falls between two
/// characters.
pub open spec fn can_shorten(s: Seq<char>) -> bool {
    encode_utf8(s).len() <= 60 || is_char_boundary(encode_utf8(s), 57)
}

/// Tests [`can_shorten`].
pub fn check_shorten(s: &str) -> (r: bool)
    ensures
        r == can_shorten(s@),
{
    s.as_bytes().len() <= 60 || s.is_char_boundary(57)
}

/// Cuts a text as [`shortened`] says.
pub fn shorten(s: &str) -> (r: String)
    requires
        can_shorten(s@),
    ensures
        r@ == shortened(s@),
{
    if s.as_bytes().len() <= 60 {
        return s.to_owned();
    }
    let (head, _) = s.split_at(57);
    proof {
        encode_utf8_decode_utf8(head@);
    }
    let mut out = head.to_owned();
    out.append("...");
    out
}

/// A text of ASCII characters can always be cut.
pub proof fn lemma_ascii_can_shorten(s: Seq<char>)
    requires
        is_ascii_chars(s),
    ensures
        can_shorten(s),
{
    is_ascii_chars_encode_utf8(s);
    let b = encode_utf8(s);
    if b.len() > 60 {
        encode_utf8_valid_utf8(s);
        assert(b[57] == s[57] as u8);
        is_char_boundary_iff_not_is_continuation_byte(b, 57);
        let x = b[57];
        assert(x < 128);
        assert(x < 128 ==> !is_continuation_byte(x)) by {
            utf8_byte_ranges_bitwise(x);
        }
    }
}

} // verus!
