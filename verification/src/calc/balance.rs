//! Parenthesis balance, which is settled before an expression is taken
//! apart.

use vstd::prelude::*;
use crate::text::chars::chars_of;

verus! {

/// What one character adds to the parenthesis depth.
pub open spec fn paren_delta(c: char) -> int {
    if c == '(' {
        1
    } else if c == ')' {
        -1
    } else {
        0
    }
}

/// The parenthesis depth after the first `n` characters of `s`: the number of
/// `(` among them minus the number of `)`.
pub open spec fn depth_before(s: Seq<char>, n: int) -> int
    decreases n,
{
    if n <= 0 {
        0
    } else {
        depth_before(s, n - 1) + paren_delta(s[n - 1])
    }
}

/// A text is well-formed when the depth never drops below zero on the way
/// from left to right and is zero at the end.
pub open spec fn balanced(s: Seq<char>) -> bool {
    &&& forall|n: int| 0 <= n <= s.len() ==> depth_before(s, n) >= 0
    &&& depth_before(s, s.len() as int) == 0
}

/// The depth after `n` characters lies between `-n` and `n`.
pub proof fn lemma_depth_bounds(s: Seq<char>, n: int)
    requires
        0 <= n,
    ensures
        -n <= depth_before(s, n) <= n,
    decreases n,
{
    if n > 0 {
        lemma_depth_bounds(s, n - 1);
    }
}

/// The empty text is well-formed.
pub proof fn lemma_empty_is_balanced()
    ensures
        balanced(Seq::<char>::empty()),
{
}

/// A single parenthesis, of either kind, is never well-formed.
pub proof fn lemma_lone_paren_is_unbalanced(c: char)
    requires
        c == '(' || c == ')',
    ensures
        !balanced(seq![c]),
{
    let s = seq![c];
    assert(depth_before(s, 1) == depth_before(s, 0) + paren_delta(s[0]));
}

/// Checks the balance of a text given as characters.
pub fn balanced_chars(s: &[char]) -> (ok: bool)
    ensures
        ok == balanced(s@),
{
    let mut depth: usize = 0;
    let mut i: usize = 0;
    while i < s.len()
        invariant
            i <= s.len(),
            depth == depth_before(s@, i as int),
            forall|n: int| 0 <= n <= i ==> depth_before(s@, n) >= 0,
        decreases s.len() - i,
    {
        let c = s[i];
        proof {
            lemma_depth_bounds(s@, i as int);
        }
        if c == '(' {
            depth += 1;
        } else if c == ')' {
            if depth == 0 {
                assert(depth_before(s@, i + 1) < 0);
                return false;
            }
            depth -= 1;
        }
        i += 1;
    }
    depth == 0
}

/// Checks that the parentheses of `expr` are balanced. Characters other than
/// parentheses are passed over.
pub fn validate_parens(expr: &str) -> (ok: bool)
    ensures
        ok == balanced(expr@),
{
    let chars = chars_of(expr);
    balanced_chars(chars.as_slice())
}

} // verus!
