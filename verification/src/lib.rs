//! A position-tracking scanner with pluggable token kinds.

pub mod class;
pub mod lexer;
pub mod scan;
pub mod text;
pub mod token;
