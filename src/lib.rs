//! Expression evaluation over a pluggable value domain: a registry of operators,
//! a lexer, an operator-precedence tree builder and a tree evaluator.
//!
//! Operators of equal priority associate to the left (`10-3-2` is `(10-3)-2`, and so is
//! `2^3^2` when `^` is registered at one priority). Only operators that take a left operand
//! (infix and postfix) reduce pending operators when they arrive; prefix operators, functions
//! and constants are pushed as they are.

pub mod operation;
pub mod calculator;
pub mod token;
pub mod lexer;
pub mod error;
pub mod parser;
pub mod eval;
pub mod bool_calculator;
pub mod laws;
