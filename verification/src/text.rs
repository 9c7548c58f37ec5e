//! Texts as sequences of characters.

pub mod chars;
pub mod compare;
