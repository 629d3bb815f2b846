//! A lexical scanner for a small expression language.
//!
//! The scanner turns an indexed character sequence into an ordered list of
//! classified tokens with exact source-position spans: operators, literals,
//! numbers, identifiers and keywords, quoted strings, and template strings
//! with embedded `${...}` expression interpolation.
//!
//! The mathematical model of the scan lives in [`model`]: a recursive
//! interpretation of the same character-class dispatch that the executable
//! scanner performs. Every public entry point is proved to return exactly
//! what the model prescribes, so the output is a pure function of the
//! source text.

pub mod codes;
pub mod cursor;
pub mod error;
pub mod laws;
pub mod lexer;
pub mod model;
pub mod text;
pub mod token;
