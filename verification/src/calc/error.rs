//! The reasons for which the calculator turns an input down.

use vstd::prelude::*;

verus! {

/// Why an expression has no value.
#[derive(Clone, Copy, Debug, PartialEq, Eq, Structural)]
pub enum CalcError {
    /// Nothing is left once spaces and separators are taken out.
    EmptyExpression,
    /// The parentheses do not match.
    UnmatchedParentheses,
    /// An operator lacks an operand.
    InvalidExpression,
    /// The right operand of a division is zero.
    DivisionByZero,
    /// The value is not a finite number.
    InvalidResult,
    /// A literal is not a number.
    InvalidNumber,
}

impl CalcError {
    /// The text shown to the user for each kind.
    pub open spec fn message_text(self) -> Seq<char> {
        match self {
            CalcError::EmptyExpression => "Empty expression"@,
            CalcError::UnmatchedParentheses => "Unmatched parentheses"@,
            CalcError::InvalidExpression => "Invalid expression"@,
            CalcError::DivisionByZero => "Division by zero"@,
            CalcError::InvalidResult => "Invalid result"@,
            CalcError::InvalidNumber => "Invalid number"@,
        }
    }

    /// The short message for this kind.
    pub fn message(&self) -> (text: &'static str)
        ensures
            text@ == self.message_text(),
    {
        match self {
            CalcError::EmptyExpression => "Empty expression",
            CalcError::UnmatchedParentheses => "Unmatched parentheses",
            CalcError::InvalidExpression => "Invalid expression",
            CalcError::DivisionByZero => "Division by zero",
            CalcError::InvalidResult => "Invalid result",
            CalcError::InvalidNumber => "Invalid number",
        }
    }
}

} // verus!
