//! Lexical and expression-parsing front end for a small SQL-like query
//! language.
//!
//! The tokenizer turns raw query text into an ordered, whitespace-free token
//! sequence; the parser turns that token sequence into an expression syntax
//! tree with a precedence-climbing algorithm.

pub mod ast;
pub mod laws;
pub mod parser;
pub mod token;
pub mod tokenizer;
