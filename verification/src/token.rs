//! The built-in token kinds.

pub mod digit;
pub mod pipe;
