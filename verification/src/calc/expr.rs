//! Taking an infix expression apart into a tree.
//!
//! The tiers are tried in a fixed order on every piece of text: the last
//! top-level `+` or `-`, then the last top-level `*` or `/`, then the first
//! top-level `^`, then one layer of enclosing parentheses, then a leading
//! minus sign, and at last the piece is a number literal. A minus sign is
//! the only sign: a piece that starts with `+` has an operator without a
//! left operand.

use vstd::prelude::*;
use vstd::slice::slice_subrange;
use crate::calc::balance::{
    balanced, balanced_chars, depth_before, lemma_depth_bounds, paren_delta,
};
use crate::calc::error::CalcError;
use crate::text::chars::{chars_of, string_of};

verus! {

/// The five binary operators.
#[derive(Clone, Copy, Debug, PartialEq, Eq, Structural)]
pub enum Operator {
    Add,
    Subtract,
    Multiply,
    Divide,
    Power,
}

/// An expression, as the calculator reads it.
#[derive(Debug, PartialEq, Eq)]
pub enum Expr {
    /// The text of a number literal, not yet read as a number.
    Number(String),
    /// A leading minus sign applied to what follows it.
    Negate(Box<Expr>),
    /// An operator between its left and right operand.
    Binary(Operator, Box<Expr>, Box<Expr>),
    /// An operator that lacks an operand on one side; a `+` at the start
    /// of a piece is one.
    Malformed,
}

/// The mathematical model of an [`Expr`].
pub enum Tree {
    Number(Seq<char>),
    Negate(Box<Tree>),
    Binary(Operator, Box<Tree>, Box<Tree>),
    Malformed,
}

/// The model of an expression: the same tree, with each literal's text as a
/// sequence of characters.
pub open spec fn tree_of(e: Expr) -> Tree
    decreases e,
{
    match e {
        Expr::Number(text) => Tree::Number(text@),
        Expr::Negate(inner) => Tree::Negate(Box::new(tree_of(*inner))),
        Expr::Binary(op, left, right) => Tree::Binary(
            op,
            Box::new(tree_of(*left)),
            Box::new(tree_of(*right)),
        ),
        Expr::Malformed => Tree::Malformed,
    }
}

impl View for Expr {
    type V = Tree;

    open spec fn view(&self) -> Tree {
        tree_of(*self)
    }
}

/// The depth seen by a scan that runs from the end of `s` down to index
/// `from`: the number of `)` in `s[from..]` minus the number of `(`.
pub open spec fn depth_behind(s: Seq<char>, from: int) -> int
    decreases s.len() - from,
{
    if from >= s.len() {
        0
    } else {
        depth_behind(s, from + 1) - paren_delta(s[from])
    }
}

/// A character after which `+` or `-` is a sign and not a binary operator.
pub open spec fn precedes_sign(c: char) -> bool {
    c == '+' || c == '-' || c == '*' || c == '/' || c == '('
}

/// Index `i` holds a `+` or `-` outside all parentheses that stands neither
/// at the start nor directly after an operator or an opening parenthesis.
pub open spec fn additive_at(s: Seq<char>, i: int) -> bool {
    &&& 0 < i < s.len()
    &&& (s[i] == '+' || s[i] == '-')
    &&& depth_behind(s, i + 1) == 0
    &&& !precedes_sign(s[i - 1])
}

/// Index `i` holds a `*` or `/` outside all parentheses.
pub open spec fn multiplicative_at(s: Seq<char>, i: int) -> bool {
    &&& 0 <= i < s.len()
    &&& (s[i] == '*' || s[i] == '/')
    &&& depth_behind(s, i + 1) == 0
}

/// Index `i` holds a `^` outside all parentheses.
pub open spec fn power_at(s: Seq<char>, i: int) -> bool {
    &&& 0 <= i < s.len()
    &&& s[i] == '^'
    &&& depth_before(s, i) == 0
}

/// The greatest index below `end` at which [`additive_at`] holds.
pub open spec fn last_additive(s: Seq<char>, end: int) -> Option<int>
    decreases end,
{
    if end <= 0 {
        None
    } else if additive_at(s, end - 1) {
        Some(end - 1)
    } else {
        last_additive(s, end - 1)
    }
}

/// The greatest index below `end` at which [`multiplicative_at`] holds.
pub open spec fn last_multiplicative(s: Seq<char>, end: int) -> Option<int>
    decreases end,
{
    if end <= 0 {
        None
    } else if multiplicative_at(s, end - 1) {
        Some(end - 1)
    } else {
        last_multiplicative(s, end - 1)
    }
}

/// The least index from `start` on at which [`power_at`] holds.
pub open spec fn first_power(s: Seq<char>, start: int) -> Option<int>
    decreases s.len() - start,
{
    if start >= s.len() {
        None
    } else if power_at(s, start) {
        Some(start)
    } else {
        first_power(s, start + 1)
    }
}

/// The operator that a character stands for.
pub open spec fn operator_of(c: char) -> Operator {
    if c == '+' {
        Operator::Add
    } else if c == '-' {
        Operator::Subtract
    } else if c == '*' {
        Operator::Multiply
    } else if c == '/' {
        Operator::Divide
    } else {
        Operator::Power
    }
}

/// The tree of `s` split at index `at`: malformed when an operand is
/// missing on either side.
pub open spec fn split_tree(s: Seq<char>, at: int) -> Tree
    recommends
        0 <= at < s.len(),
    decreases s.len(), 0int,
{
    if 0 < at && at + 1 < s.len() {
        Tree::Binary(
            operator_of(s[at]),
            Box::new(parse_tree(s.subrange(0, at))),
            Box::new(parse_tree(s.subrange(at + 1, s.len() as int))),
        )
    } else {
        Tree::Malformed
    }
}

/// The tree that a piece of text denotes.
pub open spec fn parse_tree(s: Seq<char>) -> Tree
    decreases s.len(), 1int,
{
    let n = s.len() as int;
    match last_additive(s, n) {
        Some(at) => split_tree(s, at),
        None => match last_multiplicative(s, n) {
            Some(at) => split_tree(s, at),
            None => match first_power(s, 0) {
                Some(at) => split_tree(s, at),
                None => if n >= 2 && s[0] == '(' && s[n - 1] == ')' {
                    parse_tree(s.subrange(1, n - 1))
                } else if n >= 1 && s[0] == '-' {
                    Tree::Negate(Box::new(parse_tree(s.subrange(1, n))))
                } else if n >= 1 && s[0] == '+' {
                    Tree::Malformed
                } else {
                    Tree::Number(s)
                },
            },
        },
    }
}

/// The depth behind an index is bounded by the number of characters there.
pub proof fn lemma_depth_behind_bounds(s: Seq<char>, from: int)
    requires
        0 <= from <= s.len(),
    ensures
        from - s.len() <= depth_behind(s, from) <= s.len() - from,
    decreases s.len() - from,
{
    if from < s.len() {
        lemma_depth_behind_bounds(s, from + 1);
    }
}

/// Whether `+` or `-` directly after `c` is a sign.
fn is_sign_context(c: char) -> (b: bool)
    ensures
        b == precedes_sign(c),
{
    c == '+' || c == '-' || c == '*' || c == '/' || c == '('
}

/// Scans from the right for the split point of the additive tier.
pub fn find_last_additive(s: &[char]) -> (found: Option<usize>)
    ensures
        found is Some == last_additive(s@, s@.len() as int) is Some,
        found is Some ==> last_additive(s@, s@.len() as int) == Some(found->0 as int),
        found is Some ==> additive_at(s@, found->0 as int),
{
    let n = s.len();
    let mut depth: i128 = 0;
    let mut i: usize = n;
    while i > 0
        invariant
            n == s@.len(),
            i <= n,
            depth == depth_behind(s@, i as int),
            last_additive(s@, n as int) == last_additive(s@, i as int),
        decreases i,
    {
        proof {
            lemma_depth_behind_bounds(s@, i as int);
        }
        i -= 1;
        let c = s[i];
        if c == ')' {
            depth += 1;
        } else if c == '(' {
            depth -= 1;
        } else if (c == '+' || c == '-') && depth == 0 && i > 0 {
            if !is_sign_context(s[i - 1]) {
                return Some(i);
            }
        }
    }
    None
}

/// Scans from the right for the split point of the multiplicative tier.
pub fn find_last_multiplicative(s: &[char]) -> (found: Option<usize>)
    ensures
        found is Some == last_multiplicative(s@, s@.len() as int) is Some,
        found is Some ==> last_multiplicative(s@, s@.len() as int) == Some(found->0 as int),
        found is Some ==> multiplicative_at(s@, found->0 as int),
{
    let n = s.len();
    let mut depth: i128 = 0;
    let mut i: usize = n;
    while i > 0
        invariant
            n == s@.len(),
            i <= n,
            depth == depth_behind(s@, i as int),
            last_multiplicative(s@, n as int) == last_multiplicative(s@, i as int),
        decreases i,
    {
        proof {
            lemma_depth_behind_bounds(s@, i as int);
        }
        i -= 1;
        let c = s[i];
        if c == ')' {
            depth += 1;
        } else if c == '(' {
            depth -= 1;
        } else if (c == '*' || c == '/') && depth == 0 {
            return Some(i);
        }
    }
    None
}

/// Scans from the left for the split point of the power tier.
pub fn find_first_power(s: &[char]) -> (found: Option<usize>)
    ensures
        found is Some == first_power(s@, 0) is Some,
        found is Some ==> first_power(s@, 0) == Some(found->0 as int),
        found is Some ==> power_at(s@, found->0 as int),
{
    let n = s.len();
    let mut depth: i128 = 0;
    let mut i: usize = 0;
    while i < n
        invariant
            n == s@.len(),
            i <= n,
            depth == depth_before(s@, i as int),
            first_power(s@, 0) == first_power(s@, i as int),
        decreases n - i,
    {
        proof {
            lemma_depth_bounds(s@, i as int);
        }
        let c = s[i];
        if c == '(' {
            depth += 1;
        } else if c == ')' {
            depth -= 1;
        } else if c == '^' && depth == 0 {
            return Some(i);
        }
        i += 1;
    }
    None
}

/// The operator that an operator character stands for.
fn operator_for(c: char) -> (op: Operator)
    ensures
        op == operator_of(c),
{
    if c == '+' {
        Operator::Add
    } else if c == '-' {
        Operator::Subtract
    } else if c == '*' {
        Operator::Multiply
    } else if c == '/' {
        Operator::Divide
    } else {
        Operator::Power
    }
}

/// Splits `s` at the operator at index `at` and takes both sides apart.
fn split_at_operator(s: &[char], at: usize) -> (e: Expr)
    requires
        at < s@.len(),
    ensures
        e@ == split_tree(s@, at as int),
    decreases s@.len(), 0int,
{
    let n = s.len();
    if at == 0 || at + 1 >= n {
        Expr::Malformed
    } else {
        let left = parse_chars(slice_subrange(s, 0, at));
        let right = parse_chars(slice_subrange(s, at + 1, n));
        Expr::Binary(operator_for(s[at]), Box::new(left), Box::new(right))
    }
}

/// Takes a piece of text, given as characters, apart into its tree.
pub fn parse_chars(s: &[char]) -> (e: Expr)
    ensures
        e@ == parse_tree(s@),
    decreases s@.len(), 1int,
{
    let n = s.len();
    if let Some(at) = find_last_additive(s) {
        return split_at_operator(s, at);
    }
    if let Some(at) = find_last_multiplicative(s) {
        return split_at_operator(s, at);
    }
    if let Some(at) = find_first_power(s) {
        return split_at_operator(s, at);
    }
    if n >= 2 && s[0] == '(' && s[n - 1] == ')' {
        parse_chars(slice_subrange(s, 1, n - 1))
    } else if n >= 1 && s[0] == '-' {
        Expr::Negate(Box::new(parse_chars(slice_subrange(s, 1, n))))
    } else if n >= 1 && s[0] == '+' {
        Expr::Malformed
    } else {
        Expr::Number(string_of(s))
    }
}

/// Spaces and thousands separators count for nothing in an expression.
pub open spec fn is_separator(c: char) -> bool {
    c == ' ' || c == '\''
}

/// The text without its spaces and thousands separators.
pub open spec fn normalized(s: Seq<char>) -> Seq<char> {
    s.filter(|c: char| !is_separator(c))
}

/// Takes the spaces and thousands separators out of a text.
pub fn strip_separators(s: &[char]) -> (out: Vec<char>)
    ensures
        out@ == normalized(s@),
{
    let mut out: Vec<char> = Vec::new();
    let mut i: usize = 0;
    while i < s.len()
        invariant
            i <= s.len(),
            out@ == normalized(s@.take(i as int)),
        decreases s.len() - i,
    {
        let c = s[i];
        proof {
            reveal(Seq::filter);
            assert(s@.take(i + 1).drop_last() == s@.take(i as int));
        }
        if !(c == ' ' || c == '\'') {
            out.push(c);
        }
        i += 1;
    }
    proof {
        assert(s@.take(s@.len() as int) == s@);
    }
    out
}

/// Why a normalized text is turned down before it is taken apart, if it is.
pub open spec fn rejection(s: Seq<char>) -> Option<CalcError> {
    if s.len() == 0 {
        Some(CalcError::EmptyExpression)
    } else if !balanced(s) {
        Some(CalcError::UnmatchedParentheses)
    } else {
        None
    }
}

/// Takes a text apart into its tree, as it stands: nothing is stripped and
/// the parentheses are not checked first.
pub fn parse_expr(expr: &str) -> (e: Expr)
    ensures
        e@ == parse_tree(expr@),
{
    let chars = chars_of(expr);
    parse_chars(chars.as_slice())
}

/// Reads an expression as typed: strips spaces and thousands separators,
/// turns down an empty text and one with unmatched parentheses, and takes the
/// rest apart into its tree.
pub fn parse_expression(expr: &str) -> (r: Result<Expr, CalcError>)
    ensures
        match r {
            Ok(e) => rejection(normalized(expr@)) is None && e@ == parse_tree(normalized(expr@)),
            Err(kind) => rejection(normalized(expr@)) == Some(kind),
        },
{
    let chars = chars_of(expr);
    let stripped = strip_separators(chars.as_slice());
    if stripped.len() == 0 {
        return Err(CalcError::EmptyExpression);
    }
    if !balanced_chars(stripped.as_slice()) {
        return Err(CalcError::UnmatchedParentheses);
    }
    Ok(parse_chars(stripped.as_slice()))
}

} // verus!
