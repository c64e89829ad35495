//! A small concatenative language: a lexer and parser that turn source text
//! into postfix term sequences, and a stack machine that evaluates them.

pub mod engine;
pub mod parsing;
pub mod stdlib;
