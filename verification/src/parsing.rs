//! The front end: characters to tokens, tokens to definitions.

pub mod lexer;
pub mod parser;
