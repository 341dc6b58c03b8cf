//! Work on text as sequences of characters.

pub mod chars;
pub mod number;
pub mod scan;
pub mod space;
pub mod split;
