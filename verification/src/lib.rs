//! Verified cores of a small family of terminal tools: an infix calculator
//! (balance check, expression tree, grouped number display), parsers for the
//! output of Wi-Fi command-line tools, and parsers for audio mixer output.

pub mod audio;
pub mod calc;
pub mod command;
pub mod net;
pub mod text;
