//! A lexical scanner and recursive-descent parser for a small expression
//! language with tensor operators and built-in math function calls.
//!
//! The scanner turns UTF-8 text into a sequence of tokens; the parser turns
//! the token sequence into an abstract syntax tree over a fixed precedence
//! ladder. Both are specified against purely mathematical models of the
//! input (`Seq<char>` for text, sequences of token models for token streams)
//! and verified against those models.

pub mod errors;
pub mod expr;
pub mod parser;
pub mod scanner;
