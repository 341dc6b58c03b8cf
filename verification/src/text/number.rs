//! Decimal numerals: writing a number as digits and reading digits as a
//! number.

use vstd::prelude::*;
use vstd::slice::slice_subrange;

verus! {

/// The decimal digits `0` to `9`.
pub open spec fn is_digit(c: char) -> bool {
    '0' <= c && c <= '9'
}

/// The character that stands for a digit value.
pub open spec fn digit_char(d: int) -> char
    recommends
        0 <= d <= 9,
{
    (d + 48) as char
}

/// The value that a digit character stands for.
pub open spec fn digit_value(c: char) -> int
    recommends
        is_digit(c),
{
    c as int - 48
}

/// The decimal numeral of `v`, without leading zeros; zero is `0`.
pub open spec fn decimal_digits(v: nat) -> Seq<char>
    decreases v,
{
    if v < 10 {
        seq![digit_char(v as int)]
    } else {
        decimal_digits(v / 10).push(digit_char((v % 10) as int))
    }
}

/// Every character of `s` is a decimal digit.
pub open spec fn all_digits(s: Seq<char>) -> bool {
    forall|i: int| 0 <= i < s.len() ==> is_digit(#[trigger] s[i])
}

/// The number that a run of digits denotes; the empty run denotes zero.
pub open spec fn digits_value(s: Seq<char>) -> nat
    decreases s.len(),
{
    if s.len() == 0 {
        0
    } else {
        (digits_value(s.drop_last()) * 10 + digit_value(s.last())) as nat
    }
}

/// Reads a signed decimal numeral: an optional `+` or `-`, then one digit or
/// more, and nothing else.
pub open spec fn signed_value(s: Seq<char>) -> Option<int> {
    if s.len() > 0 && s[0] == '-' {
        if s.len() > 1 && all_digits(s.skip(1)) {
            Some(-(digits_value(s.skip(1)) as int))
        } else {
            None
        }
    } else {
        unsigned_value(s)
    }
}

/// Reads an unsigned decimal numeral: an optional `+`, then one digit or
/// more, and nothing else.
pub open spec fn unsigned_value(s: Seq<char>) -> Option<int> {
    let body = if s.len() > 0 && s[0] == '+' {
        s.skip(1)
    } else {
        s
    };
    if body.len() > 0 && all_digits(body) {
        Some(digits_value(body) as int)
    } else {
        None
    }
}

/// The numeral's value where it lies between `low` and `high`.
pub open spec fn value_within(value: Option<int>, low: int, high: int) -> Option<int> {
    match value {
        Some(v) => if low <= v <= high {
            Some(v)
        } else {
            None
        },
        None => None,
    }
}

/// A longer run of digits denotes no smaller a number than what it starts
/// with.
pub proof fn lemma_digits_value_grows(s: Seq<char>, k: int)
    requires
        0 <= k <= s.len(),
        all_digits(s),
    ensures
        digits_value(s.take(k)) <= digits_value(s),
    decreases s.len() - k,
{
    if k == s.len() {
        assert(s.take(k) == s);
    } else {
        lemma_digits_value_grows(s, k + 1);
        assert(s.take(k + 1).drop_last() == s.take(k));
        assert(is_digit(s.take(k + 1).last()));
    }
}

/// Whether `c` is a decimal digit.
pub fn is_digit_char(c: char) -> (b: bool)
    ensures
        b == is_digit(c),
{
    '0' <= c && c <= '9'
}

/// Reads a run of digits as a number no greater than `limit`.
///
/// Gives `None` where a character is no digit or the number is greater than
/// `limit`; the empty run reads as zero.
pub fn read_digits(s: &[char], limit: u64) -> (value: Option<u64>)
    ensures
        value is Some <==> all_digits(s@) && digits_value(s@) <= limit,
        value is Some ==> value->0 == digits_value(s@),
{
    let mut acc: u64 = 0;
    let mut i: usize = 0;
    while i < s.len()
        invariant
            i <= s.len(),
            all_digits(s@.take(i as int)),
            acc == digits_value(s@.take(i as int)),
            acc <= limit,
        decreases s.len() - i,
    {
        let c = s[i];
        proof {
            assert(s@.take(i + 1).drop_last() == s@.take(i as int));
            assert(s@.take(i + 1).last() == c);
        }
        if !is_digit_char(c) {
            assert(!all_digits(s@));
            return None;
        }
        let d: u64 = (c as u32 - 48) as u64;
        proof {
            assert forall|j: int| 0 <= j < s@.take(i + 1).len() implies is_digit(
                #[trigger] s@.take(i + 1)[j],
            ) by {
                if j < i {
                    assert(s@.take(i as int)[j] == s@[j]);
                }
            }
        }
        if d > limit || acc > (limit - d) / 10 {
            proof {
                assert(acc * 10 + d > limit) by (nonlinear_arith)
                    requires
                        d > limit || acc > (limit - d) / 10,
                        acc >= 0,
                        d >= 0,
                        limit >= 0,
                ;
                if all_digits(s@) {
                    lemma_digits_value_grows(s@, i + 1);
                }
            }
            return None;
        }
        assert(acc * 10 + d <= limit) by (nonlinear_arith)
            requires
                acc <= (limit - d) / 10,
                d <= limit,
                acc >= 0,
        ;
        acc = acc * 10 + d;
        i += 1;
    }
    proof {
        assert(s@.take(s@.len() as int) == s@);
    }
    Some(acc)
}

/// Reads an unsigned decimal numeral no greater than `limit`.
pub fn parse_unsigned(s: &[char], limit: u64) -> (value: Option<u64>)
    ensures
        value is Some <==> value_within(unsigned_value(s@), 0, limit as int) is Some,
        value is Some ==> unsigned_value(s@) == Some(value->0 as int),
{
    let n = s.len();
    if n > 0 && s[0] == '+' {
        if n == 1 {
            return None;
        }
        let body = slice_subrange(s, 1, n);
        assert(body@ == s@.skip(1));
        read_digits(body, limit)
    } else if n == 0 {
        None
    } else {
        read_digits(s, limit)
    }
}

/// Reads a signed decimal numeral that fits in 64 bits.
pub fn parse_i64(s: &[char]) -> (value: Option<i64>)
    ensures
        value is Some <==> value_within(signed_value(s@), i64::MIN as int, i64::MAX as int)
            is Some,
        value is Some ==> signed_value(s@) == Some(value->0 as int),
{
    let n = s.len();
    if n > 0 && s[0] == '-' {
        if n == 1 {
            return None;
        }
        let body = slice_subrange(s, 1, n);
        assert(body@ == s@.skip(1));
        match read_digits(body, 9223372036854775808u64) {
            Some(magnitude) => {
                if magnitude == 9223372036854775808u64 {
                    Some(i64::MIN)
                } else {
                    Some(-(magnitude as i64))
                }
            },
            None => None,
        }
    } else {
        match parse_unsigned(s, 9223372036854775807u64) {
            Some(magnitude) => Some(magnitude as i64),
            None => None,
        }
    }
}

/// The digit character for a value from 0 to 9.
pub fn digit_for(d: u8) -> (c: char)
    requires
        d <= 9,
    ensures
        c == digit_char(d as int),
        is_digit(c),
{
    (d + 48) as char
}

/// Appends the decimal numeral of `v` to `out`.
pub fn push_decimal(out: &mut Vec<char>, v: u64)
    ensures
        final(out)@ == old(out)@ + decimal_digits(v as nat),
    decreases v,
{
    if v >= 10 {
        push_decimal(out, v / 10);
    }
    out.push(digit_for((v % 10) as u8));
}

/// The numeral of a number is made of digits, has at least one, and
/// denotes the number.
pub proof fn lemma_decimal_digits(v: nat)
    ensures
        decimal_digits(v).len() >= 1,
        all_digits(decimal_digits(v)),
        digits_value(decimal_digits(v)) == v,
    decreases v,
{
    if v < 10 {
        let d = decimal_digits(v);
        assert(d.drop_last() == Seq::<char>::empty());
        assert(digits_value(d.drop_last()) == 0);
        assert(digit_value(d.last()) == v);
    } else {
        lemma_decimal_digits(v / 10);
        let head = decimal_digits(v / 10);
        let d = decimal_digits(v);
        assert(d.drop_last() == head);
        assert(digit_value(d.last()) == v % 10);
        assert forall|i: int| 0 <= i < d.len() implies is_digit(#[trigger] d[i]) by {
            if i < head.len() {
                assert(d[i] == head[i]);
            }
        }
    }
}

/// The digits without the zeros at their start, but for the last digit.
pub open spec fn without_leading_zeros(d: Seq<char>) -> Seq<char>
    decreases d.len(),
{
    if d.len() > 1 && d[0] == '0' {
        without_leading_zeros(d.skip(1))
    } else {
        d
    }
}

/// A zero at the start of a run of digits adds nothing to the number.
pub proof fn lemma_leading_zero(d: Seq<char>)
    requires
        all_digits(d),
        d.len() >= 2,
        d[0] == '0',
    ensures
        digits_value(d) == digits_value(d.skip(1)),
    decreases d.len(),
{
    let rest = d.skip(1);
    assert(is_digit(d[d.len() - 1]));
    assert forall|i: int| 0 <= i < d.drop_last().len() implies is_digit(
        #[trigger] d.drop_last()[i],
    ) by {
        assert(d.drop_last()[i] == d[i]);
    }
    assert(rest.drop_last() == d.drop_last().skip(1));
    assert(rest.last() == d.last());
    if d.len() > 2 {
        lemma_leading_zero(d.drop_last());
    } else {
        assert(d.drop_last().drop_last() == Seq::<char>::empty());
        assert(digits_value(d.drop_last().drop_last()) == 0);
        assert(rest.drop_last() == Seq::<char>::empty());
        assert(digits_value(rest.drop_last()) == 0);
        assert(d.drop_last().last() == '0');
        assert(digits_value(d.drop_last()) == 0);
        assert(digits_value(rest) == digit_value(rest.last()));
    }
    assert(digits_value(d) == digits_value(d.drop_last()) * 10 + digit_value(d.last()));
    assert(digits_value(rest) == digits_value(rest.drop_last()) * 10 + digit_value(rest.last()));
}

/// Digits that start with no zero, or are one digit only, are the numeral
/// of the number that they denote; of more digits than one the number is
/// ten or greater.
pub proof fn lemma_numeral_is_canonical(d: Seq<char>)
    requires
        all_digits(d),
        d.len() >= 1,
        d.len() == 1 || d[0] != '0',
    ensures
        decimal_digits(digits_value(d)) == d,
        d.len() > 1 ==> digits_value(d) >= 10,
    decreases d.len(),
{
    let head = d.drop_last();
    let last = d.last();
    assert(is_digit(last));
    if d.len() == 1 {
        assert(head == Seq::<char>::empty());
        assert(digits_value(head) == 0);
        assert(digit_char(digit_value(last)) == last);
        assert(seq![last] == d);
    } else {
        assert forall|i: int| 0 <= i < head.len() implies is_digit(#[trigger] head[i]) by {
            assert(head[i] == d[i]);
        }
        assert(head[0] == d[0]);
        lemma_numeral_is_canonical(head);
        if head.len() == 1 {
            assert(is_digit(head[0]));
            assert(head.drop_last() == Seq::<char>::empty());
            assert(digits_value(head.drop_last()) == 0);
            assert(digits_value(head) >= 1);
        }
        let v = digits_value(d);
        assert(v == digits_value(head) * 10 + digit_value(last));
        assert(v / 10 == digits_value(head));
        assert(v % 10 == digit_value(last));
        assert(digit_char(digit_value(last)) == last);
        assert(head.push(last) == d);
    }
}

/// The numeral of the number that a run of digits denotes is the run
/// without its leading zeros.
pub proof fn lemma_numeral_of_digits(d: Seq<char>)
    requires
        all_digits(d),
        d.len() >= 1,
    ensures
        decimal_digits(digits_value(d)) == without_leading_zeros(d),
    decreases d.len(),
{
    if d.len() > 1 && d[0] == '0' {
        let rest = d.skip(1);
        assert forall|i: int| 0 <= i < rest.len() implies is_digit(#[trigger] rest[i]) by {
            assert(rest[i] == d[i + 1]);
        }
        lemma_leading_zero(d);
        lemma_numeral_of_digits(rest);
    } else {
        lemma_numeral_is_canonical(d);
    }
}

/// Whether every character of `s` is a decimal digit.
pub fn all_digit_chars(s: &[char]) -> (b: bool)
    ensures
        b == all_digits(s@),
{
    let mut i: usize = 0;
    while i < s.len()
        invariant
            i <= s@.len(),
            forall|j: int| 0 <= j < i ==> is_digit(#[trigger] s@[j]),
        decreases s@.len() - i,
    {
        if !is_digit_char(s[i]) {
            return false;
        }
        i += 1;
    }
    true
}

/// Cuts the leading zeros off a run of digits, but for the last digit.
pub fn strip_leading_zeros<'a>(d: &'a [char]) -> (out: &'a [char])
    ensures
        out@ == without_leading_zeros(d@),
{
    let n = d.len();
    let mut start: usize = 0;
    proof {
        assert(d@.skip(0) == d@);
    }
    while n - start > 1 && d[start] == '0'
        invariant
            n == d@.len(),
            start <= n,
            without_leading_zeros(d@) == without_leading_zeros(d@.skip(start as int)),
        decreases n - start,
    {
        proof {
            assert(d@.skip(start as int).skip(1) == d@.skip(start + 1));
        }
        start += 1;
    }
    let out = slice_subrange(d, start, n);
    assert(out@ == d@.skip(start as int));
    out
}

} // verus!
