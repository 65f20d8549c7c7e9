//! Whole numbers written in decimal, of any size and in 64 bits.

use vstd::prelude::*;
use vstd::string::*;

use crate::text::{chars_of, Text};

verus! {

pub open spec fn digit_char(d: int) -> char {
    (48 + d) as char
}

pub open spec fn is_digit(c: char) -> bool {
    '0' <= c <= '9'
}

/// The digits of `n`, without leading zeros.
pub open spec fn natural_text(n: nat) -> Text
    decreases n,
{
    if n < 10 {
        seq![digit_char(n as int)]
    } else {
        natural_text(n / 10).push(digit_char((n % 10) as int))
    }
}

/// The canonical decimal text of `v`: a minus sign only below zero, no leading zeros.
pub open spec fn integer_text(v: int) -> Text {
    if v < 0 {
        seq!['-'] + natural_text((-v) as nat)
    } else {
        natural_text(v as nat)
    }
}

/// The number that a run of digits stands for; underscores between them count for nothing.
pub open spec fn digits_value(s: Text) -> int
    decreases s.len(),
{
    if s.len() == 0 {
        0
    } else if s.last() == '_' {
        digits_value(s.drop_last())
    } else {
        digits_value(s.drop_last()) * 10 + (s.last() as int - 48)
    }
}

pub open spec fn all_digits(s: Text) -> bool {
    s.len() > 0 && forall|i: int| 0 <= i < s.len() ==> is_digit(#[trigger] s[i])
}

/// A digit, and then digits and underscores.
pub open spec fn grouped_digits(s: Text) -> bool {
    &&& s.len() > 0
    &&& is_digit(s[0])
    &&& forall|i: int| 0 <= i < s.len() ==> is_digit(#[trigger] s[i]) || s[i] == '_'
}

/// The text behind one leading sign, if there is one.
pub open spec fn unsigned_part(s: Text) -> Text {
    if s.len() > 0 && (s[0] == '-' || s[0] == '+') {
        s.skip(1)
    } else {
        s
    }
}

pub open spec fn signed_value(s: Text) -> int {
    if s.len() > 0 && s[0] == '-' {
        -digits_value(unsigned_part(s))
    } else {
        digits_value(unsigned_part(s))
    }
}

/// The whole number of any size that the text stands for: one optional sign, then grouped digits.
pub open spec fn integer_value(s: Text) -> Option<int> {
    if grouped_digits(unsigned_part(s)) {
        Some(signed_value(s))
    } else {
        None
    }
}

/// The 64-bit number that the text stands for: one optional sign, then digits only, in range.
pub open spec fn i64_value(s: Text) -> Option<i64> {
    if all_digits(unsigned_part(s)) && i64::MIN <= signed_value(s) <= i64::MAX {
        Some(signed_value(s) as i64)
    } else {
        None
    }
}

proof fn lemma_natural_text(n: nat)
    ensures
        all_digits(natural_text(n)),
        digits_value(natural_text(n)) == n,
    decreases n,
{
    let s = natural_text(n);
    if n < 10 {
        assert(s.drop_last() =~= Seq::<char>::empty());
        assert(is_digit(s[0]));
        assert(s.last() as int == 48 + n);
        assert(digits_value(s.drop_last()) == 0);
    } else {
        lemma_natural_text(n / 10);
        assert(s.drop_last() =~= natural_text(n / 10));
        assert(s.last() as int == 48 + n % 10);
        assert(is_digit(s.last()));
        assert forall|i: int| 0 <= i < s.len() implies is_digit(#[trigger] s[i]) by {
            if i < s.len() - 1 {
                assert(s[i] == natural_text(n / 10)[i]);
            }
        }
    }
}

/// Writing a whole number and reading it back gives the number again.
pub proof fn law_written_integer_reads_back(v: int)
    ensures
        integer_value(integer_text(v)) == Some(v),
        i64::MIN <= v <= i64::MAX ==> i64_value(integer_text(v)) == Some(v as i64),
{
    let s = integer_text(v);
    if v < 0 {
        lemma_natural_text((-v) as nat);
        assert(s[0] == '-');
        assert(unsigned_part(s) =~= natural_text((-v) as nat));
    } else {
        lemma_natural_text(v as nat);
        assert(is_digit(s[0]));
        assert(unsigned_part(s) == s);
    }
}

/// No two whole numbers are written alike.
pub proof fn law_integer_text_is_injective(a: int, b: int)
    requires
        integer_text(a) == integer_text(b),
    ensures
        a == b,
{
    law_written_integer_reads_back(a);
    law_written_integer_reads_back(b);
}

/// Reads a whole number of any size and writes it canonically, through `num_bigint::BigInt`:
/// `BigInt::from_str` takes one optional sign and grouped digits and nothing else, and `BigInt`'s
/// `Display` writes the number without leading zeros, with a minus sign only below zero.
#[verifier::external_body]
pub(crate) fn parse_integer(text: &str) -> (r: Option<String>)
    ensures
        match integer_value(text@) {
            Some(v) => r is Some && r->0@ == integer_text(v),
            None => r is None,
        },
{
    text.parse::<num_bigint::BigInt>().ok().map(|value| value.to_string())
}

/// The product of two whole numbers, by `Mul` of `num_bigint::BigInt`, which is exact at any size.
#[verifier::external_body]
fn multiply_integers(left: &str, right: &str) -> (r: String)
    requires
        integer_value(left@) is Some,
        integer_value(right@) is Some,
    ensures
        r@ == integer_text(integer_value(left@)->0 * integer_value(right@)->0),
{
    let left = left.parse::<num_bigint::BigInt>().unwrap();
    let right = right.parse::<num_bigint::BigInt>().unwrap();
    (left * right).to_string()
}

/// The sum of two whole numbers, by `Add` of `num_bigint::BigInt`, which is exact at any size.
#[verifier::external_body]
fn add_integers(left: &str, right: &str) -> (r: String)
    requires
        integer_value(left@) is Some,
        integer_value(right@) is Some,
    ensures
        r@ == integer_text(integer_value(left@)->0 + integer_value(right@)->0),
{
    let left = left.parse::<num_bigint::BigInt>().unwrap();
    let right = right.parse::<num_bigint::BigInt>().unwrap();
    (left + right).to_string()
}

/// `quantity` times `unit_price`, in canonical decimal; `None` unless both are whole numbers.
pub fn line_amount(quantity: &str, unit_price: &str) -> (r: Option<String>)
    ensures
        match (integer_value(quantity@), integer_value(unit_price@)) {
            (Some(q), Some(p)) => r is Some && r->0@ == integer_text(q * p),
            _ => r is None,
        },
{
    if parse_integer(quantity).is_none() || parse_integer(unit_price).is_none() {
        return None;
    }
    Some(multiply_integers(quantity, unit_price))
}

/// `total` plus `amount`, in canonical decimal; `None` unless both are whole numbers.
pub fn total_amount(total: &str, amount: &str) -> (r: Option<String>)
    ensures
        match (integer_value(total@), integer_value(amount@)) {
            (Some(t), Some(a)) => r is Some && r->0@ == integer_text(t + a),
            _ => r is None,
        },
{
    if parse_integer(total).is_none() || parse_integer(amount).is_none() {
        return None;
    }
    Some(add_integers(total, amount))
}

/// Whether a canonical decimal text stands for a number below zero.
pub(crate) fn is_negative(canonical: &str, Ghost(v): Ghost<int>) -> (r: bool)
    requires
        canonical@ == integer_text(v),
    ensures
        r == (v < 0),
{
    let chars = chars_of(canonical);
    proof {
        if v >= 0 {
            lemma_natural_text(v as nat);
        }
    }
    chars.len() > 0 && chars[0] == '-'
}

/// The one-character text of a digit below sixteen, in lower case.
pub(crate) fn digit_str(d: u8) -> (r: &'static str)
    requires
        d < 16,
    ensures
        r@ == seq![hex_char(d as int)],
        d < 10 ==> r@ == seq![digit_char(d as int)],
{
    proof {
        reveal_strlit("0");
        reveal_strlit("1");
        reveal_strlit("2");
        reveal_strlit("3");
        reveal_strlit("4");
        reveal_strlit("5");
        reveal_strlit("6");
        reveal_strlit("7");
        reveal_strlit("8");
        reveal_strlit("9");
        reveal_strlit("a");
        reveal_strlit("b");
        reveal_strlit("c");
        reveal_strlit("d");
        reveal_strlit("e");
        reveal_strlit("f");
    }
    let r: &'static str = match d {
        0 => "0",
        1 => "1",
        2 => "2",
        3 => "3",
        4 => "4",
        5 => "5",
        6 => "6",
        7 => "7",
        8 => "8",
        9 => "9",
        10 => "a",
        11 => "b",
        12 => "c",
        13 => "d",
        14 => "e",
        _ => "f",
    };
    assert(r@ =~= seq![hex_char(d as int)]);
    r
}

/// The hexadecimal digit of a number below sixteen, in lower case.
pub open spec fn hex_char(d: int) -> char {
    if d < 10 {
        (48 + d) as char
    } else {
        (87 + d) as char
    }
}

fn natural_to_text(n: u64) -> (r: String)
    ensures
        r@ == natural_text(n as nat),
    decreases n,
{
    let last = digit_str((n % 10) as u8);
    if n < 10 {
        last.to_owned()
    } else {
        let front = natural_to_text(n / 10);
        let out = front.concat(last);
        assert(out@ =~= natural_text((n / 10) as nat).push(digit_char((n % 10) as int)));
        out
    }
}

/// The canonical decimal text of a 64-bit number.
pub fn i64_to_text(value: i64) -> (r: String)
    ensures
        r@ == integer_text(value as int),
{
    if value < 0 {
        proof {
            reveal_strlit("-");
        }
        let magnitude: u64 = (-(value as i128)) as u64;
        let out = "-".to_owned().concat(natural_to_text(magnitude).as_str());
        assert(out@ =~= seq!['-'] + natural_text((-(value as int)) as nat));
        out
    } else {
        natural_to_text(value as u64)
    }
}

/// Reads a 64-bit decimal number: one optional sign, then digits only.
pub fn parse_i64(value: &str) -> (r: Option<i64>)
    ensures
        r == i64_value(value@),
{
    let chars = chars_of(value);
    let ghost s = value@;
    let signed: bool = chars.len() > 0 && (chars[0] == '-' || chars[0] == '+');
    let negative: bool = chars.len() > 0 && chars[0] == '-';
    let start: usize = if signed { 1 } else { 0 };
    if chars.len() == start {
        return None;
    }
    let ghost body = unsigned_part(s);
    assert(body =~= s.skip(start as int));
    // Beyond any 64-bit magnitude the exact value no longer matters.
    let limit: i128 = 0x1_0000_0000_0000_0000;
    let mut magnitude: i128 = 0;
    let mut i: usize = start;
    assert(body.take(0) =~= Seq::<char>::empty());
    while i < chars.len()
        invariant
            start <= i <= chars.len(),
            chars@ == s,
            s == value@,
            body == s.skip(start as int),
            body == unsigned_part(s),
            limit == 0x1_0000_0000_0000_0000,
            0 <= magnitude <= limit,
            forall|j: int| 0 <= j < i - start ==> is_digit(#[trigger] body[j]),
            digits_value(body.take(i - start)) >= 0,
            magnitude == if digits_value(body.take(i - start)) < limit {
                digits_value(body.take(i - start))
            } else {
                limit as int
            },
        decreases chars.len() - i,
    {
        let c = chars[i];
        let ghost k = i - start;
        assert(body[k] == c);
        if c < '0' || c > '9' {
            assert(!is_digit(body[k]));
            return None;
        }
        assert(body.take(k + 1).drop_last() =~= body.take(k));
        assert(body.take(k + 1).last() == c);
        let digit: i128 = (c as u32 - 48) as i128;
        let next: i128 = magnitude * 10 + digit;
        magnitude = if next < limit { next } else { limit };
        i = i + 1;
    }
    assert(body.take(body.len() as int) =~= body);
    if negative {
        if magnitude <= 0x8000_0000_0000_0000 {
            Some((-magnitude) as i64)
        } else {
            None
        }
    } else if magnitude <= 0x7fff_ffff_ffff_ffff {
        Some(magnitude as i64)
    } else {
        None
    }
}

/// A whole number is written without leading zeros, with a minus sign exactly below zero, and with
/// digits only behind it.
pub proof fn law_integer_text_is_canonical(v: int)
    ensures
        ({
            let s = integer_text(v);
            let first: int = if v < 0 {
                1
            } else {
                0
            };
            &&& v < 0 ==> s.len() > 0 && s[0] == '-'
            &&& s.len() > first
            &&& forall|i: int| first <= i < s.len() ==> '0' <= #[trigger] s[i] <= '9'
            &&& s.len() > first + 1 ==> s[first] != '0'
            &&& v != 0 ==> s[first] != '0'
        }),
{
    let n: nat = if v < 0 {
        (-v) as nat
    } else {
        v as nat
    };
    lemma_natural_text(n);
    lemma_no_leading_zero(n);
    let s = integer_text(v);
    let digits = natural_text(n);
    let first: int = s.len() - digits.len();
    assert forall|i: int| first <= i < s.len() implies '0' <= #[trigger] s[i] <= '9' by {
        assert(s[i] == digits[i - first]);
        assert(is_digit(digits[i - first]));
    }
    assert(s[first] == digits[0]);
}

proof fn lemma_no_leading_zero(n: nat)
    ensures
        natural_text(n).len() > 0,
        n > 0 ==> natural_text(n)[0] != '0',
        n < 10 ==> natural_text(n).len() == 1,
    decreases n,
{
    if n >= 10 {
        lemma_no_leading_zero(n / 10);
    }
}

/// A plus sign, leading zeros and underscores between digits change nothing of the number that is
/// read; a minus sign turns it round; and each digit behind it counts ten times what went before.
pub proof fn law_integers_are_read_by_place(s: Text, d: char)
    requires
        all_digits(s),
        is_digit(d),
    ensures
        integer_value(s) is Some,
        integer_value(s)->0 >= 0,
        integer_value(seq!['+'] + s) == integer_value(s),
        integer_value(seq!['-'] + s) == Some(-integer_value(s)->0),
        integer_value(s.push(d)) == Some(10 * integer_value(s)->0 + (d as int - '0' as int)),
        integer_value(s.push('_').push(d)) == integer_value(s.push(d)),
        integer_value(seq![d]) == Some(d as int - '0' as int),
        integer_value(seq!['0'] + s) == integer_value(s),
{
    assert(is_digit(s[0]));
    assert((seq!['+'] + s).skip(1) =~= s);
    assert((seq!['-'] + s).skip(1) =~= s);
    let more = s.push(d);
    assert(more[0] == s[0]);
    assert(more.drop_last() =~= s);
    let grouped = s.push('_').push(d);
    assert(grouped[0] == s[0]);
    assert(grouped.drop_last() =~= s.push('_'));
    assert(s.push('_').drop_last() =~= s);
    assert(digits_value(s.push('_')) == digits_value(s));
    assert(unsigned_part(grouped) == grouped);
    assert(digits_value(grouped) == digits_value(more));
    let one = seq![d];
    assert(one.drop_last() =~= Seq::<char>::empty());
    assert(digits_value(one.drop_last()) == 0);
    assert(unsigned_part(one) == one);
    assert(is_digit(one[0]));
    let zero = seq!['0'] + s;
    lemma_leading_zero(s);
    lemma_digits_not_negative(s);
    assert forall|i: int| 0 <= i < zero.len() implies is_digit(#[trigger] zero[i]) by {
        if i > 0 {
            assert(zero[i] == s[i - 1]);
        }
    }
}

proof fn lemma_digits_not_negative(s: Text)
    requires
        forall|i: int| 0 <= i < s.len() ==> is_digit(#[trigger] s[i]),
    ensures
        digits_value(s) >= 0,
    decreases s.len(),
{
    if s.len() > 0 {
        assert(is_digit(s.last()));
        lemma_digits_not_negative(s.drop_last());
    }
}

proof fn lemma_leading_zero(s: Text)
    ensures
        digits_value(seq!['0'] + s) == digits_value(s),
    decreases s.len(),
{
    let zero = seq!['0'] + s;
    if s.len() == 0 {
        assert(zero.drop_last() =~= Seq::<char>::empty());
        assert(digits_value(zero.drop_last()) == 0);
    } else {
        lemma_leading_zero(s.drop_last());
        assert(zero.drop_last() =~= seq!['0'] + s.drop_last());
    }
}

/// What is read in 64 bits is what is read without a bound, where it is in range and has no
/// underscores; nothing else is read in 64 bits.
pub proof fn law_bounded_reading_agrees(s: Text)
    ensures
        i64_value(s) matches Some(v) ==> integer_value(s) == Some(v as int),
        integer_value(s) matches Some(v) && i64::MIN <= v <= i64::MAX && !s.contains('_')
            ==> i64_value(s) is Some,
        integer_value(s) matches Some(v) && !(i64::MIN <= v <= i64::MAX) ==> i64_value(s) is None,
        integer_value(s) is None ==> i64_value(s) is None,
        s.contains('_') ==> i64_value(s) is None,
{
    let body = unsigned_part(s);
    let start: int = s.len() - body.len();
    assert(forall|i: int| 0 <= i < body.len() ==> #[trigger] body[i] == s[i + start]);
    if all_digits(body) {
        assert(is_digit(body[0]));
        assert forall|i: int| 0 <= i < s.len() implies #[trigger] s[i] != '_' by {
            if i >= start {
                assert(is_digit(body[i - start]));
            }
        }
    }
    if grouped_digits(body) && !s.contains('_') {
        assert forall|i: int| 0 <= i < body.len() implies is_digit(#[trigger] body[i]) by {
            assert(s.contains(s[i + start]));
        }
    }
}

} // verus!
