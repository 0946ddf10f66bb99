//! A lexical analyzer for a small arithmetic/assignment language.
//!
//! The lexer turns a character sequence into a stream of tokens, pulled one
//! at a time: numeric literals (with or without an exponent marker),
//! identifiers, parentheses, the four arithmetic operators, the assignment
//! operator `:=`, and error tokens carrying a position and a message.

pub mod chars;
pub mod laws;
pub mod lexer;
pub mod model;
pub mod token;
