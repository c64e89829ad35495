//! The evaluator: values, the operand stack, scoped environments, functions
//! and the machine that runs term sequences.

pub mod engine;
pub mod env;
pub mod error;
pub mod expr;
pub mod function;
pub mod number;
pub mod stack;
pub mod value;
