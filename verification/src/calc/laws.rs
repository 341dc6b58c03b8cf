//! What holds of the calculator as a whole.

use vstd::prelude::*;
use crate::calc::balance::{balanced, depth_before, paren_delta};
use crate::calc::expr::{
    additive_at, depth_behind, first_power, is_separator, last_additive, last_multiplicative,
    multiplicative_at, normalized, operator_of, parse_tree, power_at, rejection, split_tree,
    Tree,
};
use crate::calc::format::{
    digits_end, display_text, group_thousands, grouped_decimal, grouped_integer,
    is_fixed_numeral, is_integer_numeral, sign_length, trimmed, FIXED_PLACES,
};
use crate::text::number::{
    all_digits, decimal_digits, is_digit, lemma_decimal_digits, signed_value,
};
use crate::text::scan::{index_of, lemma_index_of, lemma_trim_end_char, trim_end_char};

verus! {

/// A text without spaces and thousands separators is its own normal form.
pub proof fn lemma_normalized_plain(s: Seq<char>)
    requires
        forall|i: int| 0 <= i < s.len() ==> !is_separator(#[trigger] s[i]),
    ensures
        normalized(s) == s,
    decreases s.len(),
{
    reveal(Seq::filter);
    if s.len() > 0 {
        lemma_normalized_plain(s.drop_last());
        assert(s.drop_last().push(s.last()) == s);
    }
}

/// The normal form of two texts in a row is their normal forms in a row.
pub proof fn lemma_normalized_concat(a: Seq<char>, b: Seq<char>)
    ensures
        normalized(a + b) == normalized(a) + normalized(b),
{
    Seq::filter_distributes_over_add(a, b, |c: char| !is_separator(c));
}

/// Taking the separators out of grouped digits gives the digits back.
pub proof fn lemma_grouping_is_undone(digits: Seq<char>)
    requires
        all_digits(digits),
    ensures
        normalized(group_thousands(digits)) == digits,
    decreases digits.len(),
{
    if digits.len() <= 3 {
        lemma_normalized_plain(digits);
    } else {
        let cut = digits.len() - 3;
        let head = digits.subrange(0, cut);
        let tail = digits.subrange(cut, digits.len() as int);
        lemma_grouping_is_undone(head);
        lemma_normalized_plain(tail);
        lemma_normalized_concat(group_thousands(head).push('\''), tail);
        lemma_normalized_concat(group_thousands(head), seq!['\'']);
        assert(group_thousands(head).push('\'') == group_thousands(head) + seq!['\'']);
        reveal_with_fuel(Seq::filter, 2);
        assert(seq!['\''].drop_last() == Seq::<char>::empty());
        assert(normalized(seq!['\'']) == Seq::<char>::empty());
        assert(head + tail == digits);
    }
}

/// Round trip: the display text of an integer, read back without its
/// separators, is the numeral of that integer.
pub proof fn lemma_format_round_trip(n: int)
    ensures
        signed_value(normalized(grouped_integer(n))) == Some(n),
{
    let magnitude = if n < 0 {
        (-n) as nat
    } else {
        n as nat
    };
    let digits = decimal_digits(magnitude);
    lemma_decimal_digits(magnitude);
    lemma_grouping_is_undone(digits);
    assert(is_digit(digits[0]));
    if n < 0 {
        let sign = seq!['-'];
        lemma_normalized_concat(sign, group_thousands(digits));
        lemma_normalized_plain(sign);
        let text = sign + digits;
        assert(text.skip(1) == digits);
    }
}

/// Spaces and thousands separators are transparent: with one more of them
/// anywhere, a text has the same normal form, so it is accepted or turned
/// down as before and has the same tree.
pub proof fn lemma_separators_are_transparent(before: Seq<char>, c: char, after: Seq<char>)
    requires
        is_separator(c),
    ensures
        normalized(before + seq![c] + after) == normalized(before + after),
        rejection(normalized(before + seq![c] + after)) == rejection(normalized(before + after)),
        parse_tree(normalized(before + seq![c] + after)) == parse_tree(
            normalized(before + after),
        ),
{
    lemma_normalized_concat(before + seq![c], after);
    lemma_normalized_concat(before, seq![c]);
    lemma_normalized_concat(before, after);
    reveal_with_fuel(Seq::filter, 2);
    assert(seq![c].drop_last() == Seq::<char>::empty());
    assert(normalized(seq![c]) == Seq::<char>::empty());
    assert(normalized(before) + Seq::<char>::empty() == normalized(before));
}

/// The depth behind an index is the depth before it less the depth at the
/// end.
pub proof fn lemma_depth_behind_is_before(s: Seq<char>, from: int)
    requires
        0 <= from <= s.len(),
    ensures
        depth_behind(s, from) == depth_before(s, from) - depth_before(s, s.len() as int),
    decreases s.len() - from,
{
    if from < s.len() {
        lemma_depth_behind_is_before(s, from + 1);
    }
}

/// Where no index below `end` is a split point of the additive tier, the
/// scan finds none.
pub proof fn lemma_no_additive(s: Seq<char>, end: int)
    requires
        forall|i: int| 0 <= i < end ==> !additive_at(s, i),
    ensures
        last_additive(s, end) is None,
    decreases end,
{
    if end > 0 {
        lemma_no_additive(s, end - 1);
    }
}

/// Where no index below `end` is a split point of the multiplicative tier,
/// the scan finds none.
pub proof fn lemma_no_multiplicative(s: Seq<char>, end: int)
    requires
        forall|i: int| 0 <= i < end ==> !multiplicative_at(s, i),
    ensures
        last_multiplicative(s, end) is None,
    decreases end,
{
    if end > 0 {
        lemma_no_multiplicative(s, end - 1);
    }
}

/// Where no index from `start` on is a split point of the power tier, the
/// scan finds none.
pub proof fn lemma_no_power(s: Seq<char>, start: int)
    requires
        forall|i: int| start <= i < s.len() ==> !power_at(s, i),
    ensures
        first_power(s, start) is None,
    decreases s.len() - start,
{
    if start < s.len() {
        lemma_no_power(s, start + 1);
    }
}

/// Where the additive scan finds nothing below `end`, no index below `end`
/// is a split point; where it finds an index, that is the last split point.
pub proof fn lemma_last_additive(s: Seq<char>, end: int)
    ensures
        match last_additive(s, end) {
            Some(at) => 0 <= at < end && additive_at(s, at) && forall|i: int|
                at < i < end ==> !additive_at(s, i),
            None => forall|i: int| 0 <= i < end ==> !additive_at(s, i),
        },
    decreases end,
{
    if end > 0 && !additive_at(s, end - 1) {
        lemma_last_additive(s, end - 1);
    }
}

/// Where the multiplicative scan finds nothing below `end`, no index below
/// `end` is a split point; where it finds an index, that is the last split
/// point.
pub proof fn lemma_last_multiplicative(s: Seq<char>, end: int)
    ensures
        match last_multiplicative(s, end) {
            Some(at) => 0 <= at < end && multiplicative_at(s, at) && forall|i: int|
                at < i < end ==> !multiplicative_at(s, i),
            None => forall|i: int| 0 <= i < end ==> !multiplicative_at(s, i),
        },
    decreases end,
{
    if end > 0 && !multiplicative_at(s, end - 1) {
        lemma_last_multiplicative(s, end - 1);
    }
}

/// Where the power scan finds nothing from `start` on, no index from
/// `start` on is a split point; where it finds an index, that is the first
/// split point.
pub proof fn lemma_first_power(s: Seq<char>, start: int)
    requires
        0 <= start,
    ensures
        match first_power(s, start) {
            Some(at) => start <= at < s.len() && power_at(s, at) && forall|i: int|
                start <= i < at ==> !power_at(s, i),
            None => forall|i: int| start <= i < s.len() ==> !power_at(s, i),
        },
    decreases s.len() - start,
{
    if start < s.len() && !power_at(s, start) {
        lemma_first_power(s, start + 1);
    }
}

/// The depths of a text with one more character in front: behind an index
/// they are those of the text, and before an index they are those of the
/// text more by what the character adds.
pub proof fn lemma_depths_after_prepend(c: char, s: Seq<char>, k: int)
    requires
        0 <= k <= s.len(),
    ensures
        depth_behind(seq![c] + s, k + 1) == depth_behind(s, k),
        depth_before(seq![c] + s, k + 1) == paren_delta(c) + depth_before(s, k),
{
    lemma_behind_after_prepend(c, s, k);
    lemma_before_after_prepend(c, s, k);
}

proof fn lemma_behind_after_prepend(c: char, s: Seq<char>, k: int)
    requires
        0 <= k <= s.len(),
    ensures
        depth_behind(seq![c] + s, k + 1) == depth_behind(s, k),
    decreases s.len() - k,
{
    let t = seq![c] + s;
    if k < s.len() {
        lemma_behind_after_prepend(c, s, k + 1);
        assert(t[k + 1] == s[k]);
    }
}

proof fn lemma_before_after_prepend(c: char, s: Seq<char>, k: int)
    requires
        0 <= k <= s.len(),
    ensures
        depth_before(seq![c] + s, k + 1) == paren_delta(c) + depth_before(s, k),
    decreases k,
{
    let t = seq![c] + s;
    if k > 0 {
        lemma_before_after_prepend(c, s, k - 1);
        assert(t[k] == s[k - 1]);
    } else {
        assert(depth_before(t, 1) == depth_before(t, 0) + paren_delta(t[0]));
    }
}

/// The depths of a text with one more character at its end: before an
/// index they are those of the text, and behind an index they are those of
/// the text less by what the character adds.
pub proof fn lemma_depths_after_append(s: Seq<char>, c: char, k: int)
    requires
        0 <= k <= s.len(),
    ensures
        depth_before(s.push(c), k) == depth_before(s, k),
        depth_behind(s.push(c), k) == depth_behind(s, k) - paren_delta(c),
{
    lemma_before_after_append(s, c, k);
    lemma_behind_after_append(s, c, k);
}

proof fn lemma_before_after_append(s: Seq<char>, c: char, k: int)
    requires
        0 <= k <= s.len(),
    ensures
        depth_before(s.push(c), k) == depth_before(s, k),
    decreases k,
{
    if k > 0 {
        lemma_before_after_append(s, c, k - 1);
        assert(s.push(c)[k - 1] == s[k - 1]);
    }
}

proof fn lemma_behind_after_append(s: Seq<char>, c: char, k: int)
    requires
        0 <= k <= s.len(),
    ensures
        depth_behind(s.push(c), k) == depth_behind(s, k) - paren_delta(c),
    decreases s.len() - k,
{
    let t = s.push(c);
    if k < s.len() {
        lemma_behind_after_append(s, c, k + 1);
        assert(t[k] == s[k]);
    } else {
        assert(depth_behind(t, k + 1) == 0);
        assert(t[k] == c);
    }
}

/// Parentheses around a well-formed text are transparent: the text in
/// parentheses has the tree of the text itself.
pub proof fn lemma_parentheses_are_transparent(s: Seq<char>)
    requires
        balanced(s),
    ensures
        parse_tree(seq!['('] + s + seq![')']) == parse_tree(s),
{
    let inner = seq!['('] + s;
    let t = inner + seq![')'];
    let n = t.len() as int;
    assert(t == inner.push(')'));
    assert forall|i: int| 0 <= i < n implies !additive_at(t, i) && !multiplicative_at(t, i)
        && !power_at(t, i) by {
        if 1 <= i < n - 1 {
            lemma_depths_after_prepend('(', s, i);
            lemma_depths_after_prepend('(', s, i - 1);
            lemma_depths_after_append(inner, ')', i + 1);
            lemma_depths_after_append(inner, ')', i);
            lemma_depth_behind_is_before(s, i);
            assert(depth_behind(t, i + 1) == depth_before(s, i) + 1);
            assert(depth_before(t, i) == depth_before(s, i - 1) + 1);
        }
    }
    lemma_no_additive(t, n);
    lemma_no_multiplicative(t, n);
    lemma_no_power(t, 0);
    assert(t.subrange(1, n - 1) == s);
}

/// A text with no split point on any tier.
pub open spec fn has_no_operator(s: Seq<char>) -> bool {
    &&& last_additive(s, s.len() as int) is None
    &&& last_multiplicative(s, s.len() as int) is None
    &&& first_power(s, 0) is None
}

/// A minus sign before a text that has no operator outside parentheses
/// negates it: the tree is the negation of the text's tree.
pub proof fn lemma_leading_minus_negates(s: Seq<char>)
    requires
        has_no_operator(s),
    ensures
        parse_tree(seq!['-'] + s) == Tree::Negate(Box::new(parse_tree(s))),
{
    let t = seq!['-'] + s;
    let n = t.len() as int;
    lemma_last_additive(s, s.len() as int);
    lemma_last_multiplicative(s, s.len() as int);
    lemma_first_power(s, 0);
    assert forall|i: int| 0 <= i < n implies !additive_at(t, i) && !multiplicative_at(t, i)
        && !power_at(t, i) by {
        if i >= 1 {
            lemma_depths_after_prepend('-', s, i);
            lemma_depths_after_prepend('-', s, i - 1);
            assert(t[i] == s[i - 1]);
            if i >= 2 {
                assert(t[i - 1] == s[i - 2]);
                assert(!additive_at(s, i - 1));
            }
            assert(!multiplicative_at(s, i - 1));
            assert(!power_at(s, i - 1));
        }
    }
    lemma_no_additive(t, n);
    lemma_no_multiplicative(t, n);
    lemma_no_power(t, 0);
    assert(t.subrange(1, n) == s);
}

/// The split point of the additive tier is the last of its kind: the tree
/// has the operator there at its root, and the trees of the two sides
/// below.
pub proof fn lemma_split_at_last_additive(s: Seq<char>, at: int)
    requires
        additive_at(s, at),
        at + 1 < s.len(),
        forall|i: int| at < i < s.len() ==> !additive_at(s, i),
    ensures
        parse_tree(s) == Tree::Binary(
            operator_of(s[at]),
            Box::new(parse_tree(s.subrange(0, at))),
            Box::new(parse_tree(s.subrange(at + 1, s.len() as int))),
        ),
{
    lemma_last_additive(s, s.len() as int);
    let found = last_additive(s, s.len() as int);
    assert(found is Some) by {
        if found is None {
            assert(!additive_at(s, at));
        }
    }
    assert(found == Some(at)) by {
        if found->0 < at {
            assert(!additive_at(s, at));
        } else if found->0 > at {
            assert(!additive_at(s, found->0));
        }
    }
    assert(parse_tree(s) == split_tree(s, at));
}

/// Where the additive tier has no split point, the last split point of the
/// multiplicative tier is taken.
pub proof fn lemma_split_at_last_multiplicative(s: Seq<char>, at: int)
    requires
        forall|i: int| 0 <= i < s.len() ==> !additive_at(s, i),
        multiplicative_at(s, at),
        0 < at,
        at + 1 < s.len(),
        forall|i: int| at < i < s.len() ==> !multiplicative_at(s, i),
    ensures
        parse_tree(s) == Tree::Binary(
            operator_of(s[at]),
            Box::new(parse_tree(s.subrange(0, at))),
            Box::new(parse_tree(s.subrange(at + 1, s.len() as int))),
        ),
{
    lemma_no_additive(s, s.len() as int);
    lemma_last_multiplicative(s, s.len() as int);
    let found = last_multiplicative(s, s.len() as int);
    assert(found is Some) by {
        if found is None {
            assert(!multiplicative_at(s, at));
        }
    }
    assert(found == Some(at)) by {
        if found->0 < at {
            assert(!multiplicative_at(s, at));
        } else if found->0 > at {
            assert(!multiplicative_at(s, found->0));
        }
    }
    assert(parse_tree(s) == split_tree(s, at));
}

/// Where neither the additive nor the multiplicative tier has a split
/// point, the first split point of the power tier is taken.
pub proof fn lemma_split_at_first_power(s: Seq<char>, at: int)
    requires
        forall|i: int| 0 <= i < s.len() ==> !additive_at(s, i) && !multiplicative_at(s, i),
        power_at(s, at),
        0 < at,
        at + 1 < s.len(),
        forall|i: int| 0 <= i < at ==> !power_at(s, i),
    ensures
        parse_tree(s) == Tree::Binary(
            operator_of(s[at]),
            Box::new(parse_tree(s.subrange(0, at))),
            Box::new(parse_tree(s.subrange(at + 1, s.len() as int))),
        ),
{
    lemma_no_additive(s, s.len() as int);
    lemma_no_multiplicative(s, s.len() as int);
    lemma_first_power(s, 0);
    let found = first_power(s, 0);
    assert(found is Some) by {
        if found is None {
            assert(!power_at(s, at));
        }
    }
    assert(found == Some(at)) by {
        if found->0 < at {
            assert(!power_at(s, found->0));
        } else if found->0 > at {
            assert(!power_at(s, at));
        }
    }
    assert(parse_tree(s) == split_tree(s, at));
}

/// One of the five operator characters.
pub open spec fn is_operator_char(c: char) -> bool {
    c == '+' || c == '-' || c == '*' || c == '/' || c == '^'
}

/// How tightly an operator binds: `+` and `-` least, `^` most.
pub open spec fn tier(c: char) -> int {
    if c == '+' || c == '-' {
        1
    } else if c == '*' || c == '/' {
        2
    } else {
        3
    }
}

/// A text that is not empty and holds neither an operator nor a
/// parenthesis.
pub open spec fn is_operand(s: Seq<char>) -> bool {
    &&& s.len() > 0
    &&& forall|i: int|
        0 <= i < s.len() ==> !is_operator_char(#[trigger] s[i]) && s[i] != '(' && s[i] != ')'
}

/// In a text without parentheses the depth is zero everywhere.
pub proof fn lemma_flat_depths(s: Seq<char>, k: int)
    requires
        forall|i: int| 0 <= i < s.len() ==> #[trigger] s[i] != '(' && s[i] != ')',
        0 <= k <= s.len(),
    ensures
        depth_before(s, k) == 0,
        depth_behind(s, k) == 0,
{
    lemma_flat_before(s, k);
    lemma_flat_behind(s, k);
}

proof fn lemma_flat_before(s: Seq<char>, k: int)
    requires
        forall|i: int| 0 <= i < s.len() ==> #[trigger] s[i] != '(' && s[i] != ')',
        0 <= k <= s.len(),
    ensures
        depth_before(s, k) == 0,
    decreases k,
{
    if k > 0 {
        lemma_flat_before(s, k - 1);
    }
}

proof fn lemma_flat_behind(s: Seq<char>, k: int)
    requires
        forall|i: int| 0 <= i < s.len() ==> #[trigger] s[i] != '(' && s[i] != ')',
        0 <= k <= s.len(),
    ensures
        depth_behind(s, k) == 0,
    decreases s.len() - k,
{
    if k < s.len() {
        lemma_flat_behind(s, k + 1);
    }
}

/// An operand is a number literal.
pub proof fn lemma_operand_is_number(s: Seq<char>)
    requires
        is_operand(s),
    ensures
        parse_tree(s) == Tree::Number(s),
{
    lemma_no_additive(s, s.len() as int);
    lemma_no_multiplicative(s, s.len() as int);
    lemma_no_power(s, 0);
}

/// An operator between two operands: the tree has the operator at its root
/// and the two literals below.
pub proof fn lemma_one_operator(a: Seq<char>, o: char, b: Seq<char>)
    requires
        is_operand(a),
        is_operand(b),
        is_operator_char(o),
    ensures
        parse_tree(a + seq![o] + b) == Tree::Binary(
            operator_of(o),
            Box::new(Tree::Number(a)),
            Box::new(Tree::Number(b)),
        ),
{
    let t = a + seq![o] + b;
    let at = a.len() as int;
    let n = t.len() as int;
    assert forall|i: int| 0 <= i < n implies #[trigger] t[i] != '(' && t[i] != ')' by {
        if i < at {
            assert(t[i] == a[i]);
        } else if i > at {
            assert(t[i] == b[i - at - 1]);
        }
    }
    assert forall|i: int| 0 <= i < n && i != at implies !additive_at(t, i) && !multiplicative_at(
        t,
        i,
    ) && !power_at(t, i) by {
        if i < at {
            assert(t[i] == a[i]);
        } else {
            assert(t[i] == b[i - at - 1]);
        }
    }
    lemma_flat_depths(t, at + 1);
    lemma_flat_depths(t, at);
    assert(t[at] == o);
    assert(t[at - 1] == a[at - 1]);
    assert(t.subrange(0, at) == a);
    assert(t.subrange(at + 1, n) == b);
    lemma_operand_is_number(a);
    lemma_operand_is_number(b);
    if tier(o) == 1 {
        lemma_split_at_last_additive(t, at);
    } else if tier(o) == 2 {
        lemma_split_at_last_multiplicative(t, at);
    } else {
        lemma_split_at_first_power(t, at);
    }
}

/// The tree of `a o1 b o2 c` with the first operator applied first.
pub open spec fn grouped_left(a: Seq<char>, o1: char, b: Seq<char>, o2: char, c: Seq<char>)
    -> Tree {
    Tree::Binary(
        operator_of(o2),
        Box::new(
            Tree::Binary(operator_of(o1), Box::new(Tree::Number(a)), Box::new(Tree::Number(b))),
        ),
        Box::new(Tree::Number(c)),
    )
}

/// The tree of `a o1 b o2 c` with the second operator applied first.
pub open spec fn grouped_right(a: Seq<char>, o1: char, b: Seq<char>, o2: char, c: Seq<char>)
    -> Tree {
    Tree::Binary(
        operator_of(o1),
        Box::new(Tree::Number(a)),
        Box::new(
            Tree::Binary(operator_of(o2), Box::new(Tree::Number(b)), Box::new(Tree::Number(c))),
        ),
    )
}

/// Precedence and associativity: of two operators between three operands
/// the one that binds more tightly is applied first; of two that bind alike
/// the first is applied first, but for `^`, where the second is.
pub proof fn lemma_two_operators(a: Seq<char>, o1: char, b: Seq<char>, o2: char, c: Seq<char>)
    requires
        is_operand(a),
        is_operand(b),
        is_operand(c),
        is_operator_char(o1),
        is_operator_char(o2),
    ensures
        parse_tree(a + seq![o1] + b + seq![o2] + c) == if tier(o1) > tier(o2) || (tier(o1)
            == tier(o2) && tier(o1) < 3) {
            grouped_left(a, o1, b, o2, c)
        } else {
            grouped_right(a, o1, b, o2, c)
        },
{
    let t = a + seq![o1] + b + seq![o2] + c;
    let p1 = a.len() as int;
    let p2 = p1 + 1 + b.len();
    let n = t.len() as int;
    assert(t[p1] == o1);
    assert(t[p2] == o2);
    assert(t[p1 - 1] == a[p1 - 1]);
    assert(t[p2 - 1] == b[b.len() - 1]);
    assert forall|i: int| 0 <= i < n && i != p1 && i != p2 implies !is_operator_char(
        #[trigger] t[i],
    ) && t[i] != '(' && t[i] != ')' by {
        if i < p1 {
            assert(t[i] == a[i]);
        } else if i < p2 {
            assert(t[i] == b[i - p1 - 1]);
        } else {
            assert(t[i] == c[i - p2 - 1]);
        }
    }
    assert forall|i: int| 0 <= i < n implies #[trigger] t[i] != '(' && t[i] != ')' by {
        if i != p1 && i != p2 {
            assert(!is_operator_char(t[i]));
        }
    }
    assert forall|i: int| 0 <= i < n && i != p1 && i != p2 implies !additive_at(t, i)
        && !multiplicative_at(t, i) && !power_at(t, i) by {
        assert(!is_operator_char(t[i]));
    }
    lemma_flat_depths(t, p1);
    lemma_flat_depths(t, p1 + 1);
    lemma_flat_depths(t, p2);
    lemma_flat_depths(t, p2 + 1);
    lemma_operand_is_number(a);
    lemma_operand_is_number(c);
    if tier(o1) > tier(o2) || (tier(o1) == tier(o2) && tier(o1) < 3) {
        assert(t.subrange(0, p2) == a + seq![o1] + b);
        assert(t.subrange(p2 + 1, n) == c);
        lemma_one_operator(a, o1, b);
        if tier(o2) == 1 {
            lemma_split_at_last_additive(t, p2);
        } else {
            lemma_split_at_last_multiplicative(t, p2);
        }
    } else {
        assert(t.subrange(0, p1) == a);
        assert(t.subrange(p1 + 1, n) == b + seq![o2] + c);
        lemma_one_operator(b, o2, c);
        if tier(o1) == 1 {
            lemma_split_at_last_additive(t, p1);
        } else if tier(o1) == 2 {
            lemma_split_at_last_multiplicative(t, p1);
        } else {
            lemma_split_at_first_power(t, p1);
        }
    }
}

/// A minus sign directly after `+`, `-`, `*` or `/` is a sign: it negates
/// the operand after it, and the operator before it takes the negation as
/// its right operand.
pub proof fn lemma_sign_after_operator(a: Seq<char>, o: char, b: Seq<char>)
    requires
        is_operand(a),
        is_operand(b),
        o == '+' || o == '-' || o == '*' || o == '/',
    ensures
        parse_tree(a + seq![o] + seq!['-'] + b) == Tree::Binary(
            operator_of(o),
            Box::new(Tree::Number(a)),
            Box::new(Tree::Negate(Box::new(Tree::Number(b)))),
        ),
{
    let t = a + seq![o] + seq!['-'] + b;
    let at = a.len() as int;
    let n = t.len() as int;
    assert(t[at] == o);
    assert(t[at + 1] == '-');
    assert(t[at - 1] == a[at - 1]);
    assert forall|i: int| 0 <= i < n implies #[trigger] t[i] != '(' && t[i] != ')' by {
        if i < at {
            assert(t[i] == a[i]);
        } else if i > at + 1 {
            assert(t[i] == b[i - at - 2]);
        }
    }
    assert forall|i: int| 0 <= i < n && i != at implies !additive_at(t, i) && !multiplicative_at(
        t,
        i,
    ) && !power_at(t, i) by {
        if i < at {
            assert(t[i] == a[i]);
        } else if i > at + 1 {
            assert(t[i] == b[i - at - 2]);
        }
    }
    lemma_flat_depths(t, at + 1);
    assert(t.subrange(0, at) == a);
    assert(t.subrange(at + 1, n) == seq!['-'] + b);
    lemma_operand_is_number(a);
    lemma_operand_is_number(b);
    lemma_no_additive(b, b.len() as int);
    lemma_no_multiplicative(b, b.len() as int);
    lemma_no_power(b, 0);
    lemma_leading_minus_negates(b);
    if tier(o) == 1 {
        lemma_split_at_last_additive(t, at);
    } else {
        lemma_split_at_last_multiplicative(t, at);
    }
}

/// Trailing zeros are trimmed: what is shown of a number written with a
/// fixed number of fractional digits is the start of that text; all that is
/// cut off is zeros and decimal points; what is left does not end with a
/// decimal point, and ends with a zero only where a decimal point was cut
/// off directly behind it.
pub proof fn lemma_trailing_zeros_are_trimmed(fixed: Seq<char>)
    ensures
        trimmed(fixed).len() <= fixed.len(),
        trimmed(fixed) == fixed.take(trimmed(fixed).len() as int),
        forall|j: int|
            trimmed(fixed).len() <= j < fixed.len() ==> fixed[j] == '0' || fixed[j] == '.',
        trimmed(fixed).len() > 0 ==> trimmed(fixed).last() != '.',
        trimmed(fixed).len() > 0 && trimmed(fixed).last() == '0' ==> trimmed(fixed).len()
            < fixed.len() && fixed[trimmed(fixed).len() as int] == '.',
{
    let without_zeros = trim_end_char(fixed, '0');
    lemma_trim_end_char(fixed, '0');
    lemma_trim_end_char(without_zeros, '.');
    let shown = trimmed(fixed);
    assert(without_zeros.take(shown.len() as int) == fixed.take(shown.len() as int));
    assert forall|j: int| shown.len() <= j < fixed.len() implies fixed[j] == '0' || fixed[j]
        == '.' by {
        if j < without_zeros.len() {
            assert(without_zeros[j] == fixed[j]);
        }
    }
    if shown.len() > 0 && shown.last() == '0' {
        assert(shown.len() < without_zeros.len());
        assert(without_zeros[shown.len() as int] == fixed[shown.len() as int]);
    }
}

/// A plus sign is no sign: before a text that has no operator outside
/// parentheses it is an operator without a left operand.
pub proof fn lemma_leading_plus_is_malformed(s: Seq<char>)
    requires
        has_no_operator(s),
    ensures
        parse_tree(seq!['+'] + s) == Tree::Malformed,
{
    let t = seq!['+'] + s;
    let n = t.len() as int;
    lemma_last_additive(s, s.len() as int);
    lemma_last_multiplicative(s, s.len() as int);
    lemma_first_power(s, 0);
    assert forall|i: int| 0 <= i < n implies !additive_at(t, i) && !multiplicative_at(t, i)
        && !power_at(t, i) by {
        if i >= 1 {
            lemma_depths_after_prepend('+', s, i);
            lemma_depths_after_prepend('+', s, i - 1);
            assert(t[i] == s[i - 1]);
            if i >= 2 {
                assert(t[i - 1] == s[i - 2]);
                assert(!additive_at(s, i - 1));
            }
            assert(!multiplicative_at(s, i - 1));
            assert(!power_at(s, i - 1));
        }
    }
    lemma_no_additive(t, n);
    lemma_no_multiplicative(t, n);
    lemma_no_power(t, 0);
}

/// Where all characters from `from` up to `end` are digits and the text
/// ends at `end` or holds there a character that is no digit, the digits
/// from `from` on end at `end`.
pub proof fn lemma_digits_end(s: Seq<char>, from: int, end: int)
    requires
        0 <= from <= end <= s.len(),
        forall|j: int| from <= j < end ==> is_digit(#[trigger] s[j]),
        end == s.len() || !is_digit(s[end]),
    ensures
        digits_end(s, from) == end,
    decreases end - from,
{
    if from < end {
        lemma_digits_end(s, from + 1, end);
    }
}

/// Grouped digits hold digits and apostrophes only.
pub proof fn lemma_grouped_characters(digits: Seq<char>)
    requires
        all_digits(digits),
    ensures
        forall|i: int|
            0 <= i < group_thousands(digits).len() ==> is_digit(
                #[trigger] group_thousands(digits)[i],
            ) || group_thousands(digits)[i] == '\'',
    decreases digits.len(),
{
    if digits.len() > 3 {
        let cut = digits.len() - 3;
        let head = digits.subrange(0, cut);
        let tail = digits.subrange(cut, digits.len() as int);
        assert forall|i: int| 0 <= i < head.len() implies is_digit(#[trigger] head[i]) by {
            assert(head[i] == digits[i]);
        }
        lemma_grouped_characters(head);
        let g = group_thousands(digits);
        let gh = group_thousands(head);
        assert forall|i: int| 0 <= i < g.len() implies is_digit(#[trigger] g[i]) || g[i]
            == '\'' by {
            if i < gh.len() {
                assert(g[i] == gh[i]);
            } else if i > gh.len() {
                assert(g[i] == tail[i - gh.len() - 1]);
                assert(tail[i - gh.len() - 1] == digits[cut + (i - gh.len() - 1)]);
            }
        }
    }
}

/// A whole number is shown as the integer case: where `rounded` is an
/// integer numeral, the display text is that of the integer that it
/// denotes, of any size.
pub proof fn lemma_whole_number_display(rounded: Seq<char>, fixed: Seq<char>)
    requires
        is_integer_numeral(rounded),
    ensures
        signed_value(rounded) is Some,
        display_text(true, rounded, fixed) == grouped_integer(signed_value(rounded)->0),
        forall|i: int|
            0 <= i < display_text(true, rounded, fixed).len() ==> #[trigger] display_text(
                true,
                rounded,
                fixed,
            )[i] != '.',
{
    let start = sign_length(rounded);
    if start == 0 {
        assert(rounded.skip(0) == rounded);
        assert(is_digit(rounded.skip(0)[0]));
    }
    let value = signed_value(rounded)->0;
    let magnitude = if value < 0 {
        (-value) as nat
    } else {
        value as nat
    };
    lemma_decimal_digits(magnitude);
    lemma_grouped_characters(decimal_digits(magnitude));
    let out = display_text(true, rounded, fixed);
    let grouped = group_thousands(decimal_digits(magnitude));
    assert forall|i: int| 0 <= i < out.len() implies #[trigger] out[i] != '.' by {
        if value < 0 {
            if i > 0 {
                assert(out[i] == grouped[i - 1]);
            }
        } else {
            assert(out[i] == grouped[i]);
        }
    }
}

/// What is shown of a number never ends in a zero of the fraction or in a
/// decimal point, and groups only the part before the decimal point: where
/// the display text holds a decimal point, digits follow it and nothing
/// else, at least one, and the last of them is no zero.
pub proof fn lemma_fractions_are_trimmed(whole: bool, rounded: Seq<char>, fixed: Seq<char>)
    requires
        is_integer_numeral(rounded),
        is_fixed_numeral(fixed, FIXED_PLACES as int),
    ensures
        ({
            let out = display_text(whole, rounded, fixed);
            let shown_dot = index_of(out, '.', 0);
            shown_dot < out.len() ==> {
                &&& shown_dot + 1 < out.len()
                &&& forall|j: int| shown_dot < j < out.len() ==> is_digit(#[trigger] out[j])
                &&& is_digit(out.last())
                &&& out.last() != '0'
            }
        }),
{
    let out = display_text(whole, rounded, fixed);
    lemma_index_of(out, '.', 0);
    if whole {
        lemma_whole_number_display(rounded, fixed);
    } else {
        lemma_fraction_display(rounded, fixed);
        let shown_dot = index_of(out, '.', 0);
        if shown_dot < out.len() {
            assert(is_digit(out[out.len() - 1]));
        }
    }
}

/// Fractions are shown trimmed, and only the part before the decimal point
/// is grouped. Of a number that is not whole, written as `fixed` with its
/// ten fractional digits, the display text is: the sign, the digits before
/// the point in groups of three, and then the rest of `fixed` from the
/// point on, cut where the zeros at its end begin. What is shown before the
/// first decimal point is the sign and the grouped digits; where a decimal
/// point is shown, only digits follow it, and the last of them is no zero.
pub proof fn lemma_fraction_display(rounded: Seq<char>, fixed: Seq<char>)
    requires
        is_fixed_numeral(fixed, FIXED_PLACES as int),
    ensures
        ({
            let out = display_text(false, rounded, fixed);
            let start = sign_length(fixed);
            let dot = fixed.len() - FIXED_PLACES - 1;
            let shown_dot = index_of(out, '.', 0);
            &&& out.take(shown_dot) == fixed.take(start) + group_thousands(
                fixed.subrange(start, dot),
            )
            &&& out.skip(shown_dot) == fixed.subrange(dot, dot + (out.len() - shown_dot))
            &&& shown_dot <= out.len() <= shown_dot + FIXED_PLACES + 1
            &&& forall|j: int| shown_dot < j < out.len() ==> is_digit(#[trigger] out[j])
            &&& shown_dot < out.len() ==> shown_dot + 1 < out.len() && out.last() != '0'
        }),
{
    let start = sign_length(fixed);
    let dot = fixed.len() - FIXED_PLACES - 1;
    let whole_digits = fixed.subrange(start, dot);
    let without_zeros = trim_end_char(fixed, '0');
    let shown = trimmed(fixed);
    lemma_trim_end_char(fixed, '0');
    lemma_trim_end_char(without_zeros, '.');
    assert(is_digit(whole_digits[dot - 1 - start]));
    assert(fixed[dot - 1] == whole_digits[dot - 1 - start]);
    assert forall|j: int| dot < j < fixed.len() implies is_digit(#[trigger] fixed[j]) by {
        assert(fixed.skip(dot + 1)[j - dot - 1] == fixed[j]);
    }
    assert forall|j: int| start <= j < dot implies is_digit(#[trigger] fixed[j]) by {
        assert(whole_digits[j - start] == fixed[j]);
    }
    // The zeros that are cut off lie behind the decimal point.
    assert(without_zeros.len() > dot) by {
        if without_zeros.len() <= dot {
            assert(fixed[dot] == '0');
        }
    }
    assert(without_zeros.take(shown.len() as int) == fixed.take(shown.len() as int));
    assert(shown == fixed.take(shown.len() as int));
    // Where the fraction is all zeros the decimal point goes too, and
    // nothing else does.
    if without_zeros.len() == dot + 1 {
        assert(without_zeros.last() == '.');
        assert(shown.len() == dot) by {
            if shown.len() < dot {
                assert(without_zeros[dot - 1] == '.');
            }
            if shown.len() > dot {
                assert(shown.last() == without_zeros[dot]);
            }
        }
    } else {
        assert(without_zeros.last() == fixed[without_zeros.len() - 1]);
        assert(is_digit(without_zeros.last()));
        assert(shown.len() == without_zeros.len()) by {
            if shown.len() < without_zeros.len() {
                assert(without_zeros[without_zeros.len() - 1] == '.');
            }
        }
    }
    let m = shown.len() as int;
    assert(dot <= m <= fixed.len());
    assert(m > dot ==> m > dot + 1 && shown.last() != '0');
    // The digits before the point are found and grouped.
    assert(sign_length(shown) == start);
    assert forall|j: int| start <= j < dot implies is_digit(#[trigger] shown[j]) by {
        assert(shown[j] == fixed[j]);
    }
    if m > dot {
        assert(shown[dot] == '.');
    }
    lemma_digits_end(shown, start, dot);
    assert(shown.subrange(start, dot) == whole_digits);
    assert(shown.take(start) == fixed.take(start));
    let head = fixed.take(start) + group_thousands(whole_digits);
    let out = grouped_decimal(shown);
    assert(out == head + shown.skip(dot));
    assert(out == display_text(false, rounded, fixed));
    // No decimal point is shown before the fraction.
    lemma_grouped_characters(whole_digits);
    assert forall|j: int| 0 <= j < head.len() implies #[trigger] out[j] != '.' by {
        if j < start {
            assert(out[j] == fixed[j]);
        } else {
            assert(out[j] == group_thousands(whole_digits)[j - start]);
        }
    }
    lemma_index_of(out, '.', 0);
    let shown_dot = index_of(out, '.', 0);
    if m > dot {
        assert(out[head.len() as int] == shown[dot]);
    }
    assert(shown_dot == head.len());
    assert(out.take(shown_dot) == head);
    assert(out.skip(shown_dot) == shown.skip(dot));
    assert(shown.skip(dot) == fixed.subrange(dot, dot + (out.len() - shown_dot)));
    assert forall|j: int| shown_dot < j < out.len() implies is_digit(#[trigger] out[j]) by {
        assert(out[j] == shown[dot + (j - shown_dot)]);
        assert(shown[dot + (j - shown_dot)] == fixed[dot + (j - shown_dot)]);
    }
    if shown_dot < out.len() {
        assert(out.last() == shown.last());
    }
}

} // verus!
