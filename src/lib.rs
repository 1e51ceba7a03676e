//! Turns the source text of a small imperative language into a span-annotated
//! syntax tree, or into one precise diagnostic.
pub mod common;
pub mod lexer;
pub mod parser;
