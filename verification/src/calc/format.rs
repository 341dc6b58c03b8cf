//! Display text: digits in groups of three, set apart by apostrophes.

use vstd::prelude::*;
use vstd::slice::{slice_subrange, slice_to_vec};
use crate::text::chars::{chars_of, string_of};
use crate::text::number::{
    all_digit_chars, all_digits, decimal_digits, digits_value, is_digit, is_digit_char,
    lemma_decimal_digits, lemma_numeral_of_digits, push_decimal, signed_value,
    strip_leading_zeros,
};
use crate::text::scan::{trim_end_char, trim_end_matches};
use crate::text::split::push_all;

verus! {

/// The text with an apostrophe before every group of three characters,
/// counted from the right, but for the leftmost group.
pub open spec fn group_thousands(digits: Seq<char>) -> Seq<char>
    decreases digits.len(),
{
    if digits.len() <= 3 {
        digits
    } else {
        let cut = digits.len() - 3;
        group_thousands(digits.subrange(0, cut)).push('\'') + digits.subrange(
            cut,
            digits.len() as int,
        )
    }
}

/// The display text of an integer: its sign, then the digits of its
/// magnitude in groups of three.
pub open spec fn grouped_integer(n: int) -> Seq<char> {
    if n < 0 {
        seq!['-'] + group_thousands(decimal_digits((-n) as nat))
    } else {
        group_thousands(decimal_digits(n as nat))
    }
}

/// What a left-to-right pass has written after `i` characters: each
/// character, with an apostrophe before it where the number of characters
/// from it to the end is a multiple of three and it is not the first.
pub open spec fn grouped_prefix(digits: Seq<char>, i: int) -> Seq<char>
    decreases i,
{
    if i <= 0 {
        Seq::empty()
    } else {
        let before = grouped_prefix(digits, i - 1);
        if i - 1 > 0 && (digits.len() - (i - 1)) % 3 == 0 {
            before.push('\'').push(digits[i - 1])
        } else {
            before.push(digits[i - 1])
        }
    }
}

/// Up to the last three characters, the pass writes the same for a text and
/// for the text without its last three characters.
proof fn lemma_prefix_ignores_last_group(digits: Seq<char>, i: int)
    requires
        digits.len() > 3,
        0 <= i <= digits.len() - 3,
    ensures
        grouped_prefix(digits, i) == grouped_prefix(digits.subrange(0, digits.len() - 3), i),
    decreases i,
{
    if i > 0 {
        lemma_prefix_ignores_last_group(digits, i - 1);
    }
}

/// On a text of at most three characters the pass writes the text itself.
proof fn lemma_prefix_of_short(digits: Seq<char>, i: int)
    requires
        digits.len() <= 3,
        0 <= i <= digits.len(),
    ensures
        grouped_prefix(digits, i) == digits.take(i),
    decreases i,
{
    if i > 0 {
        lemma_prefix_of_short(digits, i - 1);
        assert(digits.take(i - 1).push(digits[i - 1]) == digits.take(i));
    } else {
        assert(digits.take(0) == Seq::<char>::empty());
    }
}

/// The left-to-right pass over the whole text writes the grouped text.
pub proof fn lemma_pass_groups(digits: Seq<char>)
    ensures
        grouped_prefix(digits, digits.len() as int) == group_thousands(digits),
    decreases digits.len(),
{
    let n = digits.len() as int;
    if n <= 3 {
        lemma_prefix_of_short(digits, n);
        assert(digits.take(n) == digits);
    } else {
        let head = digits.subrange(0, n - 3);
        lemma_pass_groups(head);
        lemma_prefix_ignores_last_group(digits, n - 3);
        assert(grouped_prefix(digits, n - 2) == grouped_prefix(digits, n - 3).push('\'').push(
            digits[n - 3],
        ));
        assert(grouped_prefix(digits, n - 1) == grouped_prefix(digits, n - 2).push(
            digits[n - 2],
        ));
        assert(grouped_prefix(digits, n) == grouped_prefix(digits, n - 1).push(digits[n - 1]));
        assert(grouped_prefix(digits, n) == group_thousands(head).push('\'') + digits.subrange(
            n - 3,
            n,
        ));
    }
}

/// Appends `digits`, in groups of three, to `out`.
pub fn push_grouped(out: &mut Vec<char>, digits: &[char])
    ensures
        final(out)@ == old(out)@ + group_thousands(digits@),
{
    let n = digits.len();
    let ghost start = out@;
    let mut i: usize = 0;
    while i < n
        invariant
            n == digits@.len(),
            i <= n,
            out@ == start + grouped_prefix(digits@, i as int),
        decreases n - i,
    {
        if i > 0 && (n - i) % 3 == 0 {
            out.push('\'');
        }
        out.push(digits[i]);
        i += 1;
        assert(out@ == start + grouped_prefix(digits@, i as int));
    }
    proof {
        lemma_pass_groups(digits@);
    }
}

/// Writes the display text of an integer.
pub fn grouped_chars(n: i64) -> (out: Vec<char>)
    ensures
        out@ == grouped_integer(n as int),
{
    let magnitude: u64 = if n == i64::MIN {
        9223372036854775808u64
    } else if n < 0 {
        (-n) as u64
    } else {
        n as u64
    };
    let mut digits: Vec<char> = Vec::new();
    push_decimal(&mut digits, magnitude);
    let mut out: Vec<char> = Vec::new();
    if n < 0 {
        out.push('-');
    }
    push_grouped(&mut out, digits.as_slice());
    out
}

/// Format an integer with thousands separators (apostrophe).
pub fn format_with_thousands(n: i64) -> (out: String)
    ensures
        out@ == grouped_integer(n as int),
{
    let shown = grouped_chars(n);
    string_of(shown.as_slice())
}

/// A number as the formatter takes it: what it reads of the value, as text.
pub struct NumberText {
    /// Whether the value is a whole number, up to machine precision.
    pub whole: bool,
    /// The value written with no fractional digits.
    pub rounded: String,
    /// The value written with ten fractional digits.
    pub fixed: String,
}

/// The number of fractional digits of the fixed rendering.
pub const FIXED_PLACES: usize = 10;

/// The length of the sign at the start of a text: one where it starts with
/// a minus sign, zero otherwise.
pub open spec fn sign_length(s: Seq<char>) -> int {
    if s.len() > 0 && s[0] == '-' {
        1
    } else {
        0
    }
}

/// An optional minus sign and then digits, at least one.
pub open spec fn is_integer_numeral(s: Seq<char>) -> bool {
    sign_length(s) < s.len() && all_digits(s.skip(sign_length(s)))
}

/// An optional minus sign, digits, at least one, a decimal point, and then
/// exactly `places` digits.
pub open spec fn is_fixed_numeral(s: Seq<char>, places: int) -> bool {
    let dot = s.len() - places - 1;
    &&& 0 <= places
    &&& sign_length(s) < dot
    &&& s[dot] == '.'
    &&& all_digits(s.subrange(sign_length(s), dot))
    &&& all_digits(s.skip(dot + 1))
}

impl NumberText {
    /// The texts are renderings of a finite number: `rounded` is an integer
    /// numeral, and `fixed` is a numeral with ten fractional digits.
    pub open spec fn well_formed(&self) -> bool {
        is_integer_numeral(self.rounded@) && is_fixed_numeral(self.fixed@, FIXED_PLACES as int)
    }

    /// Whether the texts are renderings of a finite number.
    pub fn is_well_formed(&self) -> (b: bool)
        ensures
            b == self.well_formed(),
    {
        let rounded = chars_of(self.rounded.as_str());
        let fixed = chars_of(self.fixed.as_str());
        is_integer_text(rounded.as_slice()) && is_fixed_text(fixed.as_slice(), FIXED_PLACES)
    }
}

/// Whether a text is an optional minus sign and then digits.
pub fn is_integer_text(s: &[char]) -> (b: bool)
    ensures
        b == is_integer_numeral(s@),
{
    let n = s.len();
    let start: usize = if n > 0 && s[0] == '-' {
        1
    } else {
        0
    };
    if start >= n {
        return false;
    }
    let digits = slice_subrange(s, start, n);
    assert(digits@ == s@.skip(start as int));
    all_digit_chars(digits)
}

/// Whether a text is a numeral with exactly `places` fractional digits.
pub fn is_fixed_text(s: &[char], places: usize) -> (b: bool)
    ensures
        b == is_fixed_numeral(s@, places as int),
{
    let n = s.len();
    let start: usize = if n > 0 && s[0] == '-' {
        1
    } else {
        0
    };
    if n <= places || n - places - 1 <= start {
        return false;
    }
    let dot = n - places - 1;
    if s[dot] != '.' {
        return false;
    }
    let before = slice_subrange(s, start, dot);
    let after = slice_subrange(s, dot + 1, n);
    assert(after@ == s@.skip(dot + 1));
    all_digit_chars(before) && all_digit_chars(after)
}

/// The text without the zeros at its end and without the decimal point that
/// they leave at the end.
pub open spec fn trimmed(fixed: Seq<char>) -> Seq<char> {
    trim_end_char(trim_end_char(fixed, '0'), '.')
}

/// The index from `from` on of the first character that is no digit, or the
/// length of the text where all are digits.
pub open spec fn digits_end(s: Seq<char>, from: int) -> int
    decreases s.len() - from,
{
    if from >= s.len() || !is_digit(s[from]) {
        from
    } else {
        digits_end(s, from + 1)
    }
}

/// The display text of a decimal numeral. Where the part before the first
/// decimal point, or the whole text where it has none, is an optional minus
/// sign and then digits, the result is the sign, the digits in groups of
/// three, and the rest untouched. Any other text stays as it is.
pub open spec fn grouped_decimal(s: Seq<char>) -> Seq<char> {
    let start = sign_length(s);
    let end = digits_end(s, start);
    if start < end <= s.len() && (end == s.len() || s[end] == '.') {
        s.take(start) + group_thousands(s.subrange(start, end)) + s.skip(end)
    } else {
        s
    }
}

/// The display text of a number. A whole number is shown as the integer
/// that `rounded` denotes, whatever its size. Any other number, and a whole
/// number whose `rounded` is no numeral, is shown as `fixed` without the
/// zeros at the end of the fraction, and without the decimal point where
/// nothing is left of the fraction, the part before the point in groups of
/// three.
pub open spec fn display_text(whole: bool, rounded: Seq<char>, fixed: Seq<char>) -> Seq<char> {
    if whole && signed_value(rounded) is Some {
        grouped_integer(signed_value(rounded)->0)
    } else {
        grouped_decimal(trimmed(fixed))
    }
}

/// The index from `from` on of the first character that is no digit.
pub fn find_digits_end(s: &[char], from: usize) -> (end: usize)
    requires
        from <= s@.len(),
    ensures
        end == digits_end(s@, from as int),
        from <= end <= s@.len(),
{
    let mut i: usize = from;
    while i < s.len() && is_digit_char(s[i])
        invariant
            from <= i <= s@.len(),
            digits_end(s@, from as int) == digits_end(s@, i as int),
        decreases s@.len() - i,
    {
        i += 1;
    }
    i
}

/// Formats a decimal numeral: groups the digits before the decimal point
/// and leaves the rest as it is.
pub fn format_decimal(s: &[char]) -> (out: Vec<char>)
    ensures
        out@ == grouped_decimal(s@),
{
    let n = s.len();
    let start: usize = if n > 0 && s[0] == '-' {
        1
    } else {
        0
    };
    let end = find_digits_end(s, start);
    if start < end && (end == n || s[end] == '.') {
        let mut out: Vec<char> = Vec::new();
        let sign = slice_subrange(s, 0, start);
        push_all(&mut out, sign);
        push_grouped(&mut out, slice_subrange(s, start, end));
        let rest = slice_subrange(s, end, n);
        assert(rest@ == s@.skip(end as int));
        assert(sign@ == s@.take(start as int));
        push_all(&mut out, rest);
        out
    } else {
        slice_to_vec(s)
    }
}

/// Formats the numeral of an integer of any size: the integer that it
/// denotes, grouped. Gives `None` where the text is no such numeral.
pub fn format_integer_text(s: &[char]) -> (out: Option<Vec<char>>)
    ensures
        out is Some == signed_value(s@) is Some,
        out is Some ==> out->0@ == grouped_integer(signed_value(s@)->0),
{
    let n = s.len();
    let negative = n > 0 && s[0] == '-';
    let start: usize = if n > 0 && (s[0] == '-' || s[0] == '+') {
        1
    } else {
        0
    };
    if start >= n {
        return None;
    }
    let digits = slice_subrange(s, start, n);
    assert(digits@ == s@.skip(start as int));
    if start == 0 {
        assert(s@.skip(0) == s@);
    }
    if !all_digit_chars(digits) {
        return None;
    }
    let numeral = strip_leading_zeros(digits);
    proof {
        lemma_numeral_of_digits(digits@);
        lemma_decimal_digits(digits_value(digits@));
    }
    let is_zero = numeral.len() == 1 && numeral[0] == '0';
    proof {
        if is_zero {
            assert(numeral@.drop_last() == Seq::<char>::empty());
            assert(digits_value(numeral@.drop_last()) == 0);
            assert(digits_value(numeral@) == 0);
        } else if digits_value(digits@) == 0 {
            assert(decimal_digits(0) == seq!['0']);
        }
    }
    let mut out: Vec<char> = Vec::new();
    if negative && !is_zero {
        out.push('-');
    }
    push_grouped(&mut out, numeral);
    Some(out)
}

/// Format a number with thousands separators (apostrophe).
///
/// A whole number is shown as an integer. Any other number is shown with up
/// to ten fractional digits: the zeros at the end of the fraction are
/// dropped, and the decimal point with them where nothing is left of the
/// fraction.
pub fn format_number(n: &NumberText) -> (out: String)
    ensures
        out@ == display_text(n.whole, n.rounded@, n.fixed@),
{
    if n.whole {
        let rounded = chars_of(n.rounded.as_str());
        if let Some(shown) = format_integer_text(rounded.as_slice()) {
            return string_of(shown.as_slice());
        }
    }
    let fixed = chars_of(n.fixed.as_str());
    let without_zeros = trim_end_matches(fixed.as_slice(), '0');
    let without_point = trim_end_matches(without_zeros, '.');
    let shown = format_decimal(without_point);
    string_of(shown.as_slice())
}

} // verus!
