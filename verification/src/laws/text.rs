//! Laws of texts and numbers.

use crate::text::{
    after_prefix, before, before_suffix, can_shorten, comes_before, decimal, decimal_text,
    digits_value, joined, lemma_ascii_can_shorten, lemma_sorted_set, parse_size, shorten,
    shortened, signed_decimal, size_of_text, sorted_set, strip_prefix, strip_suffix, texts,
};
use vstd::prelude::*;
use vstd::string::*;
use vstd::utf8::*;

verus! {

/// Whether two texts agree up to a position, and at that position the first has ended
/// or has the smaller character.
pub open spec fn smaller_at(a: Seq<char>, b: Seq<char>, i: int) -> bool {
    &&& 0 <= i <= a.len()
    &&& i < b.len()
    &&& forall|j: int| 0 <= j < i ==> a[j] == b[j]
    &&& i == a.len() || (a[i] as int) < (b[i] as int)
}

/// One text comes before another exactly where it has the smaller character at the first
/// place at which they differ, or is a beginning of the other.
pub proof fn law_order_of_texts(a: Seq<char>, b: Seq<char>)
    ensures
        before(a, b) <==> exists|i: int| smaller_at(a, b, i),
    decreases a.len(),
{
    if a.len() == 0 {
        if b.len() > 0 {
            assert(smaller_at(a, b, 0));
        }
    } else if b.len() > 0 {
        if a[0] == b[0] {
            let x = a.skip(1);
            let y = b.skip(1);
            law_order_of_texts(x, y);
            if before(x, y) {
                let i = choose|i: int| smaller_at(x, y, i);
                assert forall|j: int| 0 <= j < i + 1 implies a[j] == b[j] by {
                    if j > 0 {
                        assert(x[j - 1] == y[j - 1]);
                    }
                }
                assert(smaller_at(a, b, i + 1));
            }
            if exists|i: int| smaller_at(a, b, i) {
                let i = choose|i: int| smaller_at(a, b, i);
                assert(i > 0);
                assert forall|j: int| 0 <= j < i - 1 implies x[j] == y[j] by {
                    assert(a[j + 1] == b[j + 1]);
                }
                assert(smaller_at(x, y, i - 1));
            }
        } else if (a[0] as int) < (b[0] as int) {
            assert(smaller_at(a, b, 0));
        } else {
            assert forall|i: int| !smaller_at(a, b, i) by {
                if smaller_at(a, b, i) && i > 0 {
                    assert(a[0] == b[0]);
                }
            }
        }
    }
}

/// A sorted set holds the texts of a list and no other, and each of them comes before the
/// next.
pub proof fn law_sorted_set(s: Seq<Seq<char>>)
    ensures
        forall|i: int, j: int|
            0 <= i < j < sorted_set(s).len() ==> before(
                #[trigger] sorted_set(s)[i],
                #[trigger] sorted_set(s)[j],
            ),
        forall|x: Seq<char>| #[trigger] sorted_set(s).contains(x) <==> s.contains(x),
{
    lemma_sorted_set(s);
}

/// Joining no parts gives the empty text, joining one part gives that part, and one more
/// part stands behind the others and a separator.
pub proof fn law_joined(parts: Seq<Seq<char>>, last: Seq<char>, sep: Seq<char>)
    ensures
        joined(Seq::empty(), sep) == Seq::<char>::empty(),
        joined(seq![last], sep) == last,
        parts.len() > 0 ==> joined(parts.push(last), sep) == joined(parts, sep) + sep + last,
{
    reveal_with_fuel(joined, 2);
    assert(seq![last].drop_last() =~= Seq::empty());
    assert(joined(seq![last], sep) =~= last);
    assert(parts.push(last).drop_last() =~= parts);
}

/// What follows a prefix is found exactly where the text is the prefix and what follows.
pub proof fn law_prefix(s: Seq<char>, prefix: Seq<char>, rest: Seq<char>)
    ensures
        after_prefix(s, prefix) == Some(rest) <==> s == prefix + rest,
{
    if s == prefix + rest {
        assert(s.take(prefix.len() as int) =~= prefix);
        assert(s.skip(prefix.len() as int) =~= rest);
    }
    if after_prefix(s, prefix) == Some(rest) {
        assert(s =~= prefix + rest);
    }
}

/// What precedes a suffix is found exactly where the text is what precedes and the
/// suffix.
pub proof fn law_suffix(s: Seq<char>, front: Seq<char>, suffix: Seq<char>)
    ensures
        before_suffix(s, suffix) == Some(front) <==> s == front + suffix,
{
    if s == front + suffix {
        assert(s.skip(s.len() - suffix.len()) =~= suffix);
        assert(s.take(s.len() - suffix.len()) =~= front);
    }
    if before_suffix(s, suffix) == Some(front) {
        assert(s =~= front + suffix);
    }
}

/// The digits of a number: a number below ten is one digit, a larger one is the number
/// without its last digit and that digit; the digit of `d` is the character `d` places
/// behind `0`.
pub proof fn law_decimal(n: nat)
    ensures
        decimal(n).len() >= 1,
        '0' <= decimal(n).last() <= '9',
        decimal(n).last() as int - '0' as int == n % 10,
        n < 10 ==> decimal(n).len() == 1,
        n >= 10 ==> decimal(n).drop_last() == decimal(n / 10),
        n >= 10 ==> decimal(n).len() == decimal(n / 10).len() + 1,
{
    reveal_strlit("0");
    reveal_strlit("1");
    reveal_strlit("2");
    reveal_strlit("3");
    reveal_strlit("4");
    reveal_strlit("5");
    reveal_strlit("6");
    reveal_strlit("7");
    reveal_strlit("8");
    reveal_strlit("9");
    if n >= 10 {
        assert(decimal(n).drop_last() =~= decimal(n / 10));
    }
}

/// Digits read back as the number that they write: one digit more multiplies by ten and
/// adds it.
pub proof fn law_digits_value(d: Seq<char>, c: char)
    requires
        '0' <= c <= '9',
    ensures
        digits_value(Seq::empty()) == 0,
        digits_value(d.push(c)) == 10 * digits_value(d) + (c as int - '0' as int),
{
    assert(d.push(c).drop_last() =~= d);
}

/// The decimal digits of a number are digits and read back as that number.
pub proof fn law_decimal_reads_back(n: nat)
    ensures
        digits_value(decimal(n)) == n,
        forall|i: int| 0 <= i < decimal(n).len() ==> '0' <= #[trigger] decimal(n)[i] <= '9',
    decreases n,
{
    law_decimal(n);
    let d = decimal(n);
    assert(d.drop_last().push(d.last()) =~= d);
    if n < 10 {
        assert(d.drop_last() =~= Seq::empty());
        law_digits_value(Seq::empty(), d.last());
    } else {
        law_decimal_reads_back(n / 10);
        law_digits_value(d.drop_last(), d.last());
        assert forall|i: int| 0 <= i < d.len() implies '0' <= #[trigger] d[i] <= '9' by {
            if i < d.len() - 1 {
                assert(d[i] == decimal(n / 10)[i]);
            }
        }
    }
}

/// Different numbers have different digits.
pub proof fn law_decimal_injective(n: nat, m: nat)
    requires
        decimal(n) == decimal(m),
    ensures
        n == m,
{
    law_decimal_reads_back(n);
    law_decimal_reads_back(m);
}

/// A negative number has a `-` in front of its digits.
pub proof fn law_signed_decimal(n: nat)
    ensures
        signed_decimal(n as int) == decimal(n),
        n > 0 ==> signed_decimal(-n) == "-"@ + decimal(n),
{
}

/// A number that was written is read again, with or without a `+`.
pub proof fn law_size_reads_back(n: usize)
    ensures
        size_of_text(decimal(n as nat)) == Some(n),
        size_of_text("+"@ + decimal(n as nat)) == Some(n),
{
    reveal_strlit("+");
    law_decimal_reads_back(n as nat);
    law_decimal(n as nat);
    let d = decimal(n as nat);
    assert('0' <= d[0] <= '9');
    assert(("+"@ + d).skip(1) =~= d);
    assert(("+"@ + d)[0] == '+');
}

/// What has a character that is no digit, but for a `+` in front, is no number; neither
/// is what has no digit.
pub proof fn law_size_refuses(s: Seq<char>, i: int)
    ensures
        size_of_text(Seq::empty()) is None,
        size_of_text(seq!['+']) is None,
        0 <= i < s.len() && !('0' <= s[i] <= '9') && (i > 0 || s[i] != '+') ==> size_of_text(
            s,
        ) is None,
{
    assert(seq!['+'].skip(1) =~= Seq::empty());
    if 0 <= i < s.len() && !('0' <= s[i] <= '9') && (i > 0 || s[i] != '+') {
        if s[0] == '+' {
            assert(s.skip(1)[i - 1] == s[i]);
        }
    }
}

/// A text of ASCII characters is shown whole up to 60 characters; a longer one is cut to
/// its first 57 characters, and three dots follow.
pub proof fn law_shortened_ascii(s: Seq<char>)
    requires
        is_ascii_chars(s),
    ensures
        can_shorten(s),
        s.len() <= 60 ==> shortened(s) == s,
        s.len() > 60 ==> shortened(s) == s.take(57) + seq!['.', '.', '.'],
{
    lemma_ascii_can_shorten(s);
    is_ascii_chars_encode_utf8(s);
    reveal_strlit("...");
    assert("..."@ =~= seq!['.', '.', '.']);
    if s.len() > 60 {
        let head = s.take(57);
        assert(is_ascii_chars(head));
        is_ascii_chars_encode_utf8(head);
        assert(encode_utf8(s).subrange(0, 57) =~= encode_utf8(head));
        encode_utf8_decode_utf8(head);
    }
}

/// A text of at most 60 bytes is shown whole. A longer one is shown where its first 57
/// bytes are whole characters: those characters and three dots.
pub proof fn law_shortened(s: Seq<char>)
    ensures
        encode_utf8(s).len() <= 60 ==> can_shorten(s) && shortened(s) == s,
        encode_utf8(s).len() > 60 && can_shorten(s) ==> exists|head: Seq<char>|
            #![trigger encode_utf8(head)]
            {
                &&& encode_utf8(head) == encode_utf8(s).take(57)
                &&& shortened(s) == head + seq!['.', '.', '.']
            },
{
    reveal_strlit("...");
    assert("..."@ =~= seq!['.', '.', '.']);
    let b = encode_utf8(s);
    if b.len() > 60 && can_shorten(s) {
        encode_utf8_valid_utf8(s);
        valid_utf8_split(b, 57);
        let head = decode_utf8(b.subrange(0, 57));
        decode_utf8_encode_utf8(b.subrange(0, 57));
        assert(b.subrange(0, 57) =~= b.take(57));
        assert(encode_utf8(head) == b.take(57));
    }
}

/// Digits, with or without a `+` in front of them, are the number that they write where a
/// machine word holds it, and no number where it does not.
pub proof fn law_size(d: Seq<char>)
    requires
        d.len() > 0,
        forall|i: int| 0 <= i < d.len() ==> '0' <= #[trigger] d[i] <= '9',
    ensures
        digits_value(d) <= usize::MAX ==> size_of_text(d) == Some(digits_value(d) as usize),
        digits_value(d) <= usize::MAX ==> size_of_text(seq!['+'] + d) == Some(
            digits_value(d) as usize,
        ),
        digits_value(d) > usize::MAX ==> size_of_text(d) is None,
        digits_value(d) > usize::MAX ==> size_of_text(seq!['+'] + d) is None,
{
    assert('0' <= d[0] <= '9');
    assert((seq!['+'] + d).skip(1) =~= d);
    assert((seq!['+'] + d)[0] == '+');
}

/// A text of more than 60 bytes can be cut where the byte behind the cut does not go on
/// with a character.
pub proof fn law_can_shorten(s: Seq<char>)
    requires
        encode_utf8(s).len() > 60,
    ensures
        can_shorten(s) <==> !(0x80 <= encode_utf8(s)[57] <= 0xbf),
{
    encode_utf8_valid_utf8(s);
    is_char_boundary_iff_not_is_continuation_byte(encode_utf8(s), 57);
}

/// Cutting a text gives what is shown of it.
pub proof fn law_shorten(s: &str, r: String)
    requires
        call_ensures(shorten, (s,), r),
        is_ascii_chars(s@),
    ensures
        s@.len() <= 60 ==> r@ == s@,
        s@.len() > 60 ==> r@ == s@.take(57) + seq!['.', '.', '.'],
{
    law_shortened_ascii(s@);
}

/// A number is written in digits that read back as it, without a zero in front of others.
pub proof fn law_decimal_text(n: u64, r: String)
    requires
        call_ensures(decimal_text, (n,), r),
    ensures
        r@.len() > 0,
        forall|i: int| 0 <= i < r@.len() ==> '0' <= #[trigger] r@[i] <= '9',
        digits_value(r@) == n,
        r@.len() > 1 ==> r@[0] != '0',
{
    law_decimal(n as nat);
    law_decimal_reads_back(n as nat);
    lemma_leading_digit(n as nat);
}

proof fn lemma_leading_digit(n: nat)
    ensures
        decimal(n).len() >= 1,
        n > 0 ==> decimal(n)[0] != '0',
        n == 0 ==> decimal(n).len() == 1,
    decreases n,
{
    law_decimal(n);
    if n >= 10 {
        lemma_leading_digit(n / 10);
        assert(decimal(n)[0] == decimal(n).drop_last()[0]);
    }
}

/// What is read of a number that was written is that number.
pub proof fn law_parse_size(n: u64, written: String, s: &str, r: Option<usize>)
    requires
        call_ensures(decimal_text, (n,), written),
        s@ == written@,
        n <= usize::MAX,
        call_ensures(parse_size, (s,), r),
    ensures
        r is Some,
        r->0 == n,
{
    law_size_reads_back(n as usize);
}

/// A prefix is taken off exactly where the text begins with it, and a suffix exactly where
/// it ends with it.
pub proof fn law_strip(s: &str, part: &str, rest: Option<String>, front: Option<String>)
    requires
        call_ensures(strip_prefix, (s, part), rest),
        call_ensures(strip_suffix, (s, part), front),
    ensures
        rest is Some ==> s@ == part@ + rest->0@,
        front is Some ==> s@ == front->0@ + part@,
        rest is None ==> forall|t: Seq<char>| s@ != #[trigger] (part@ + t),
        front is None ==> forall|t: Seq<char>| s@ != #[trigger] (t + part@),
{
    assert(rest.deep_view() is Some <==> rest is Some);
    assert(front.deep_view() is Some <==> front is Some);
    if let Some(t) = rest {
        law_prefix(s@, part@, t@);
    }
    if let Some(t) = front {
        law_suffix(s@, t@, part@);
    }
    if rest is None {
        assert forall|t: Seq<char>| s@ != #[trigger] (part@ + t) by {
            law_prefix(s@, part@, t);
        }
    }
    if front is None {
        assert forall|t: Seq<char>| s@ != #[trigger] (t + part@) by {
            law_suffix(s@, t, part@);
        }
    }
}

/// One text comes before another where it has the smaller character at the first place at
/// which they differ, or is a beginning of the other.
pub proof fn law_comes_before(a: &str, b: &str, r: bool)
    requires
        call_ensures(comes_before, (a, b), r),
    ensures
        r <==> exists|i: int| smaller_at(a@, b@, i),
{
    law_order_of_texts(a@, b@);
}

/// A list of strings has the texts of its strings, in their order.
pub proof fn law_texts(v: Seq<String>)
    ensures
        texts(v).len() == v.len(),
        forall|i: int| 0 <= i < v.len() ==> #[trigger] texts(v)[i] == v[i]@,
{
}

} // verus!
