use vstd::prelude::*;

verus! {

/// A lexical unit of the expression language.
#[derive(Clone, Copy, Debug, PartialEq, Eq, Structural)]
pub enum Token {
    /// A decimal literal.
    Integer(i64),
    /// `+`
    Plus,
    /// `-`
    Minus,
    /// `*`
    Mul,
    /// `/`
    Div,
    /// `(`
    LeftParen,
    /// `)`
    RightParen,
    /// The text is exhausted.
    EndOfInput,
}

} // verus!
