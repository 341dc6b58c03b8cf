//! The calculator: parenthesis balance, expression trees, number display.

pub mod balance;
pub mod error;
pub mod expr;
pub mod format;
pub mod laws;
pub mod session;
