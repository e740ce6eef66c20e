//! Front end for a small Markdown-like dialect: a character-level tokenizer
//! that turns a text buffer into a flat, line-annotated token sequence, and a
//! recursive-descent builder that turns that sequence into a nested,
//! position-annotated document tree.
//!
//! The pipeline is a pure function from an input string to an output tree:
//! malformed markup never raises an error, it degrades to literal text under
//! fixed recovery rules (over-long header runs, unmatched emphasis markers,
//! under-indented list continuations).

pub mod lexer;
pub mod parser;
pub mod token;
pub mod tree;
