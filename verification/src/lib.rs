//! A scanner for a small imperative, English-like language: it turns source
//! text into classified tokens, each tagged with a line and a column.
//!
//! `grammar` says what a scan yields, as functions on sequences of
//! characters; `lex_luthor` holds the scanner that computes it; `theorems`
//! holds what follows for every text.

pub mod characters;
pub mod grammar;
pub mod lex_luthor;
pub mod source_code;
pub mod text;
pub mod theorems;
pub mod token;
