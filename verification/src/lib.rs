//! Syntactic front end for a minimal C-like language: a scanner that turns
//! raw text into classified tokens, and a recursive-descent recognizer that
//! accepts or rejects the token stream against a fixed LL(1) grammar.

pub mod grammar;
pub mod interchange;
pub mod laws;
pub mod parser;
pub mod scanner;
pub mod token;
