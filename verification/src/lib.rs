//! A lexical analyzer for a small C-like scripting language.
//!
//! The scanner turns raw source text into a stream of typed tokens:
//! operators, punctuation, identifiers, keywords, numeric and string
//! literals, each carrying the matched lexeme and its source position.
//! Unrecognized characters are reported as data (an illegal token), not
//! as an error; comments and whitespace produce no tokens at all.

pub mod token;

pub mod scan;

pub mod lexer;

pub mod laws;
