//! A verified calculator core: an LL(1) predictive parser for simple
//! arithmetic expressions (non-negative integer literals, `+ - * /`, and
//! grouping parentheses) together with an evaluator that turns the syntax
//! tree into a left-to-right evaluation schedule.

pub mod ast;
pub mod evaluator;
pub mod grammar;
pub mod lexer;
pub mod parser;
