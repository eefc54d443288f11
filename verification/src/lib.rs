//! An integer calculator: a lexer, a recursive-descent evaluator for
//! `+ - * /` with parentheses, and the laws that tie both to the grammar.
//!
//! `evaluate` gives the value of a line. `lexer` and `interpreter` hold the
//! code that runs; `scan`, `stream` and `grammar` say what it computes;
//! `expression`, `chains`, `spelling`, `words`, `accepted` and `laws` hold
//! what is proved of it.

pub mod accepted;
pub mod arith;
pub mod chains;
pub mod chars;
pub mod error;
pub mod evaluate;
pub mod expression;
pub mod grammar;
pub mod interpreter;
pub mod laws;
pub mod lexer;
pub mod scan;
pub mod spelling;
pub mod stream;
pub mod token;
pub mod words;
