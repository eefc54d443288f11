use crate::token::Token;
use vstd::prelude::*;

verus! {

/// What the evaluator was looking for when it met a token it cannot use.
#[derive(Clone, Copy, Debug, PartialEq, Eq, Structural)]
pub enum Expected {
    /// A literal or an opening parenthesis.
    Factor,
    /// The parenthesis that closes a group.
    RightParen,
}

/// Why a line has no value.
#[derive(Clone, Copy, Debug, PartialEq, Eq, Structural)]
pub enum CalcError {
    /// The character `ch`, at index `position` of the text, starts no token.
    InvalidCharacter { ch: char, position: usize },
    /// The lookahead `found` fits no alternative of the grammar.
    SyntaxError { expected: Expected, found: Token },
    /// The right operand of `/` is zero.
    DivisionByZero,
    /// A literal or an intermediate result does not fit in 64 signed bits.
    IntegerOverflow,
}

} // verus!
