//! Expressions as trees, what they are worth, and how they are written down
//! as tokens: the yardstick that the grammar is held to.

use crate::arith::Operator;
use crate::error::CalcError;
use crate::grammar::{
    additive, multiplicative, parse_expr, parse_expr_rest, parse_factor, parse_term,
    parse_term_rest, shift, Parsed,
};
use crate::stream::TokenStream;
use crate::token::Token;
use vstd::prelude::*;

verus! {

/// An arithmetic expression.
pub enum Expr {
    /// A number.
    Literal(i64),
    /// An operator between a left and a right operand.
    Binary(Operator, Box<Expr>, Box<Expr>),
    /// An expression in parentheses of its own.
    Group(Box<Expr>),
}

impl Operator {
    /// How tightly the operator binds: 0 for `+` and `-`, 1 for `*` and `/`.
    pub open spec fn rank(self) -> int {
        match self {
            Operator::Add | Operator::Sub => 0,
            Operator::Mul | Operator::Div => 1,
        }
    }

    /// The token that spells the operator.
    pub open spec fn token(self) -> Token {
        match self {
            Operator::Add => Token::Plus,
            Operator::Sub => Token::Minus,
            Operator::Mul => Token::Mul,
            Operator::Div => Token::Div,
        }
    }
}

impl Expr {
    /// What the expression is worth: the left operand first, then the right
    /// one, then the operator on both; the first failure on that way is the
    /// result.
    pub open spec fn value(self) -> Result<i64, CalcError>
        decreases self,
    {
        match self {
            Expr::Literal(n) => Ok(n),
            Expr::Binary(op, left, right) => match left.value() {
                Ok(a) => match right.value() {
                    Ok(b) => op.apply(a, b),
                    Err(e) => Err(e),
                },
                Err(e) => Err(e),
            },
            Expr::Group(inner) => inner.value(),
        }
    }

    /// The rank of the expression: that of its operator, and 2 for a number
    /// and for what stands in parentheses.
    pub open spec fn rank(self) -> int {
        match self {
            Expr::Literal(_) => 2,
            Expr::Binary(op, _, _) => op.rank(),
            Expr::Group(_) => 2,
        }
    }

    /// The expression written down for a place that takes rank `level` or
    /// more: in parentheses where its own rank is lower or where it has
    /// parentheses of its own, and else its left operand at its own rank, its
    /// operator, and its right operand at the next rank, so that operators of
    /// one rank group to the left.
    pub open spec fn tokens(self, level: int) -> Seq<Token>
        decreases self, level,
    {
        if 0 <= self.rank() < level {
            seq![Token::LeftParen] + self.tokens(0) + seq![Token::RightParen]
        } else {
            match self {
                Expr::Literal(n) => seq![Token::Integer(n)],
                Expr::Binary(op, left, right) => left.tokens(op.rank()) + seq![op.token()]
                    + right.tokens(op.rank() + 1),
                Expr::Group(inner) => seq![Token::LeftParen] + inner.tokens(0) + seq![
                    Token::RightParen,
                ],
            }
        }
    }

    /// No number in the expression is negative.
    pub open spec fn literals_nonnegative(self) -> bool
        decreases self,
    {
        match self {
            Expr::Literal(n) => n >= 0,
            Expr::Binary(_, left, right) => left.literals_nonnegative()
                && right.literals_nonnegative(),
            Expr::Group(inner) => inner.literals_nonnegative(),
        }
    }
}

/// The stream that yields `tokens` and then goes on as `then`.
pub open spec fn followed_by(tokens: Seq<Token>, then: TokenStream) -> TokenStream {
    TokenStream { tokens: tokens + then.tokens, end: then.end }
}

/// What the rule of rank `level` gives on `s`.
spec fn parse_at(level: int, s: TokenStream) -> Parsed {
    if level == 0 {
        parse_expr(s)
    } else if level == 1 {
        parse_term(s)
    } else {
        parse_factor(s)
    }
}

/// What the rule of rank `level` goes on to do behind an operand that is worth
/// `v`.
spec fn resume_at(level: int, v: i64, s: TokenStream) -> Parsed {
    if level == 0 {
        parse_expr_rest(v, s)
    } else if level == 1 {
        parse_term_rest(v, s)
    } else {
        Ok((v, s))
    }
}

/// Whether `s` starts with `*` or `/`.
spec fn starts_multiplicative(s: TokenStream) -> bool {
    s.first() matches Ok(t) && multiplicative(t) is Some
}

/// What is behind a value: `rest(v)` where there is one, and else the
/// failure that stands in its place.
spec fn and_then(value: Result<i64, CalcError>, rest: spec_fn(i64) -> Parsed) -> Parsed {
    match value {
        Ok(v) => rest(v),
        Err(x) => Err(x),
    }
}

/// The rule of rank `level` has done on `s` what the tree asks for: it took
/// an operand worth `value` and went on with `then`.
spec fn follows_tree(level: int, s: TokenStream, value: Result<i64, CalcError>, then: TokenStream) -> bool {
    parse_at(level, s) == and_then(value, |v: i64| resume_at(level, v, then))
}

/// Putting tokens in front of a stream, one batch after another.
proof fn lemma_followed_by(first: Seq<Token>, second: Seq<Token>, then: TokenStream)
    ensures
        followed_by(first + second, then) == followed_by(first, followed_by(second, then)),
        followed_by(Seq::empty(), then) == then,
{
    assert((first + second) + then.tokens =~= first + (second + then.tokens));
    assert(Seq::<Token>::empty() + then.tokens =~= then.tokens);
}

/// A stream behind one token more starts with that token and goes on as it
/// did.
proof fn lemma_followed_by_one(token: Token, then: TokenStream)
    requires
        then.first() is Ok,
    ensures
        followed_by(seq![token], then).first() == Ok::<Token, CalcError>(token),
        followed_by(seq![token], then).rest() == then,
        shift(followed_by(seq![token], then)) == Ok::<TokenStream, CalcError>(then),
        followed_by(seq![token], then).tokens.len() == then.tokens.len() + 1,
{
    assert(followed_by(seq![token], then).rest().tokens =~= then.tokens);
}

/// A stream with tokens in front of it still has a token as lookahead, and is
/// no shorter.
proof fn lemma_followed_by_first(tokens: Seq<Token>, then: TokenStream)
    requires
        then.first() is Ok,
    ensures
        followed_by(tokens, then).first() is Ok,
        followed_by(tokens, then).tokens.len() == tokens.len() + then.tokens.len(),
{
}

/// A number is a factor.
proof fn lemma_literal_is_factor(n: i64, then: TokenStream)
    requires
        then.first() is Ok,
    ensures
        follows_tree(2, followed_by(seq![Token::Integer(n)], then), Ok(n), then),
{
    lemma_followed_by_one(Token::Integer(n), then);
}

/// An expression in parentheses is a factor.
proof fn lemma_group_is_factor(inner: Seq<Token>, value: Result<i64, CalcError>, then: TokenStream)
    requires
        then.first() is Ok,
        follows_tree(
            0,
            followed_by(inner, followed_by(seq![Token::RightParen], then)),
            value,
            followed_by(seq![Token::RightParen], then),
        ),
    ensures
        follows_tree(
            2,
            followed_by(seq![Token::LeftParen] + inner + seq![Token::RightParen], then),
            value,
            then,
        ),
{
    let closing = followed_by(seq![Token::RightParen], then);
    let body = followed_by(inner, closing);
    let s = followed_by(seq![Token::LeftParen] + inner + seq![Token::RightParen], then);
    lemma_followed_by_one(Token::RightParen, then);
    lemma_followed_by_first(inner, closing);
    lemma_followed_by(seq![Token::LeftParen] + inner, seq![Token::RightParen], then);
    lemma_followed_by(seq![Token::LeftParen], inner, closing);
    lemma_followed_by_one(Token::LeftParen, body);
    assert(s == followed_by(seq![Token::LeftParen], body));
    assert(shift(s) == Ok::<TokenStream, CalcError>(body));
    match value {
        Ok(v) => {
            assert(parse_expr(body) == parse_expr_rest(v, closing));
            assert(parse_expr_rest(v, closing) == Ok::<(i64, TokenStream), CalcError>((v, closing)));
        },
        Err(x) => {
            assert(parse_expr(body) == Err::<(i64, TokenStream), CalcError>(x));
        },
    }
}

/// A factor is a term, and a term is an expression where no `*` or `/`
/// follows it.
proof fn lemma_factor_is_term_and_expr(
    level: int,
    s: TokenStream,
    value: Result<i64, CalcError>,
    then: TokenStream,
)
    requires
        0 <= level <= 2,
        follows_tree(2, s, value, then),
        then.tokens.len() <= s.tokens.len(),
        level == 0 ==> !starts_multiplicative(then),
        then.first() is Ok,
    ensures
        follows_tree(level, s, value, then),
{
    match value {
        Ok(v) => {
            assert(parse_factor(s) == Ok::<(i64, TokenStream), CalcError>((v, then)));
            assert(parse_term(s) == parse_term_rest(v, then));
            if level == 0 {
                assert(parse_term_rest(v, then) == Ok::<(i64, TokenStream), CalcError>((v, then)));
                assert(parse_expr(s) == parse_expr_rest(v, then));
            }
        },
        Err(x) => {
            assert(parse_factor(s) == Err::<(i64, TokenStream), CalcError>(x));
            assert(parse_term(s) == Err::<(i64, TokenStream), CalcError>(x));
            assert(parse_expr(s) == Err::<(i64, TokenStream), CalcError>(x));
        },
    }
}

/// A term is an expression where no `*` or `/` follows it.
proof fn lemma_term_is_expr(s: TokenStream, value: Result<i64, CalcError>, then: TokenStream)
    requires
        follows_tree(1, s, value, then),
        then.tokens.len() <= s.tokens.len(),
        !starts_multiplicative(then),
        then.first() is Ok,
    ensures
        follows_tree(0, s, value, then),
{
    match value {
        Ok(v) => {
            assert(parse_term(s) == parse_term_rest(v, then));
            assert(parse_term_rest(v, then) == Ok::<(i64, TokenStream), CalcError>((v, then)));
            assert(parse_expr(s) == parse_expr_rest(v, then));
        },
        Err(x) => {
            assert(parse_term(s) == Err::<(i64, TokenStream), CalcError>(x));
            assert(parse_expr(s) == Err::<(i64, TokenStream), CalcError>(x));
        },
    }
}

/// What two operands are worth together: the failure of the left one, else
/// that of the right one, else what the operator makes of both.
pub open spec fn combined(op: Operator, left: Result<i64, CalcError>, right: Result<i64, CalcError>) -> Result<
    i64,
    CalcError,
> {
    match left {
        Ok(a) => match right {
            Ok(b) => op.apply(a, b),
            Err(e) => Err(e),
        },
        Err(e) => Err(e),
    }
}

/// A term, `*` or `/`, and a factor are a term.
proof fn lemma_product_is_term(
    op: Operator,
    left: Seq<Token>,
    right: Seq<Token>,
    left_value: Result<i64, CalcError>,
    right_value: Result<i64, CalcError>,
    then: TokenStream,
)
    requires
        op.rank() == 1,
        then.first() is Ok,
        follows_tree(
            1,
            followed_by(left, followed_by(seq![op.token()], followed_by(right, then))),
            left_value,
            followed_by(seq![op.token()], followed_by(right, then)),
        ),
        follows_tree(2, followed_by(right, then), right_value, then),
    ensures
        follows_tree(
            1,
            followed_by(left + seq![op.token()] + right, then),
            combined(op, left_value, right_value),
            then,
        ),
{
    let operand = followed_by(right, then);
    let operator = followed_by(seq![op.token()], operand);
    let s = followed_by(left + seq![op.token()] + right, then);
    lemma_followed_by_first(right, then);
    lemma_followed_by_one(op.token(), operand);
    lemma_followed_by(left + seq![op.token()], right, then);
    lemma_followed_by(left, seq![op.token()], operand);
    assert(s == followed_by(left, operator));
    assert(multiplicative(op.token()) == Some(op));
    match left_value {
        Ok(a) => {
            assert(parse_term(s) == parse_term_rest(a, operator));
            match right_value {
                Ok(b) => {
                    assert(parse_factor(operand) == Ok::<(i64, TokenStream), CalcError>((b, then)));
                    match op.apply(a, b) {
                        Ok(v) => {
                            assert(parse_term_rest(a, operator) == parse_term_rest(v, then));
                        },
                        Err(x) => {
                            assert(parse_term_rest(a, operator) == Err::<
                                (i64, TokenStream),
                                CalcError,
                            >(x));
                        },
                    }
                },
                Err(x) => {
                    assert(parse_factor(operand) == Err::<(i64, TokenStream), CalcError>(x));
                    assert(parse_term_rest(a, operator) == Err::<(i64, TokenStream), CalcError>(x));
                },
            }
        },
        Err(x) => {
            assert(parse_term(s) == Err::<(i64, TokenStream), CalcError>(x));
        },
    }
}

/// An expression, `+` or `-`, and a term are an expression where no `*` or
/// `/` follows them.
proof fn lemma_sum_is_expr(
    op: Operator,
    left: Seq<Token>,
    right: Seq<Token>,
    left_value: Result<i64, CalcError>,
    right_value: Result<i64, CalcError>,
    then: TokenStream,
)
    requires
        op.rank() == 0,
        then.first() is Ok,
        !starts_multiplicative(then),
        follows_tree(
            0,
            followed_by(left, followed_by(seq![op.token()], followed_by(right, then))),
            left_value,
            followed_by(seq![op.token()], followed_by(right, then)),
        ),
        follows_tree(1, followed_by(right, then), right_value, then),
    ensures
        follows_tree(
            0,
            followed_by(left + seq![op.token()] + right, then),
            combined(op, left_value, right_value),
            then,
        ),
{
    let operand = followed_by(right, then);
    let operator = followed_by(seq![op.token()], operand);
    let s = followed_by(left + seq![op.token()] + right, then);
    lemma_followed_by_first(right, then);
    lemma_followed_by_one(op.token(), operand);
    lemma_followed_by(left + seq![op.token()], right, then);
    lemma_followed_by(left, seq![op.token()], operand);
    assert(s == followed_by(left, operator));
    assert(additive(op.token()) == Some(op));
    match left_value {
        Ok(a) => {
            assert(parse_expr(s) == parse_expr_rest(a, operator));
            match right_value {
                Ok(b) => {
                    assert(parse_term(operand) == parse_term_rest(b, then));
                    assert(parse_term_rest(b, then) == Ok::<(i64, TokenStream), CalcError>(
                        (b, then),
                    ));
                    match op.apply(a, b) {
                        Ok(v) => {
                            assert(parse_expr_rest(a, operator) == parse_expr_rest(v, then));
                        },
                        Err(x) => {
                            assert(parse_expr_rest(a, operator) == Err::<
                                (i64, TokenStream),
                                CalcError,
                            >(x));
                        },
                    }
                },
                Err(x) => {
                    assert(parse_term(operand) == Err::<(i64, TokenStream), CalcError>(x));
                    assert(parse_expr_rest(a, operator) == Err::<(i64, TokenStream), CalcError>(x));
                },
            }
        },
        Err(x) => {
            assert(parse_expr(s) == Err::<(i64, TokenStream), CalcError>(x));
        },
    }
}

/// On an expression written down for rank `level`, the rule of that rank
/// computes the value of the tree and goes on with what follows, whatever
/// follows; only that the rule for `expr` must not be followed by `*` or `/`,
/// which would bind to the last term alone.
proof fn lemma_rule_follows_tree(e: Expr, level: int, then: TokenStream)
    requires
        0 <= level <= 2,
        then.first() is Ok,
        level == 0 ==> !starts_multiplicative(then),
    ensures
        follows_tree(level, followed_by(e.tokens(level), then), e.value(), then),
    decreases e, level,
{
    let s = followed_by(e.tokens(level), then);
    lemma_followed_by_first(e.tokens(level), then);
    if e.rank() < level {
        let closing = followed_by(seq![Token::RightParen], then);
        lemma_followed_by_one(Token::RightParen, then);
        lemma_rule_follows_tree(e, 0, closing);
        lemma_group_is_factor(e.tokens(0), e.value(), then);
        lemma_factor_is_term_and_expr(level, s, e.value(), then);
    } else {
        match e {
            Expr::Literal(n) => {
                lemma_literal_is_factor(n, then);
                lemma_factor_is_term_and_expr(level, s, e.value(), then);
            },
            Expr::Binary(op, left, right) => {
                let rank = op.rank();
                let operand = followed_by(right.tokens(rank + 1), then);
                let operator = followed_by(seq![op.token()], operand);
                lemma_followed_by_first(right.tokens(rank + 1), then);
                lemma_followed_by_one(op.token(), operand);
                lemma_rule_follows_tree(*left, rank, operator);
                lemma_rule_follows_tree(*right, rank + 1, then);
                assert(e.value() == combined(op, left.value(), right.value()));
                if rank == 1 {
                    lemma_product_is_term(
                        op,
                        left.tokens(1),
                        right.tokens(2),
                        left.value(),
                        right.value(),
                        then,
                    );
                    if level == 0 {
                        lemma_term_is_expr(s, e.value(), then);
                    }
                } else {
                    lemma_sum_is_expr(
                        op,
                        left.tokens(0),
                        right.tokens(1),
                        left.value(),
                        right.value(),
                        then,
                    );
                }
            },
            Expr::Group(inner) => {
                let closing = followed_by(seq![Token::RightParen], then);
                lemma_followed_by_one(Token::RightParen, then);
                lemma_rule_follows_tree(*inner, 0, closing);
                lemma_group_is_factor(inner.tokens(0), inner.value(), then);
                lemma_factor_is_term_and_expr(level, s, e.value(), then);
            },
        }
    }
}

/// `factor` reads one written expression, however deep its parentheses go:
/// on the tokens of `e` as they are written for a factor, with any stream
/// behind them that starts with a token, it computes what `e` is worth and
/// stops behind them, or fails as `e` does.
pub proof fn lemma_factor_follows_tree(e: Expr, then: TokenStream)
    requires
        then.first() is Ok,
    ensures
        parse_factor(followed_by(e.tokens(2), then)) == match e.value() {
            Ok(v) => Ok::<(i64, TokenStream), CalcError>((v, then)),
            Err(x) => Err(x),
        },
{
    lemma_rule_follows_tree(e, 2, then);
}

/// `term` reads one written expression: on the tokens of `e` as they are
/// written for a term, with any stream behind them that starts with a token
/// other than `*` and `/`, it computes what `e` is worth and stops behind
/// them, or fails as `e` does.
pub proof fn lemma_term_follows_tree(e: Expr, then: TokenStream)
    requires
        then.first() matches Ok(t) && multiplicative(t) is None,
    ensures
        parse_term(followed_by(e.tokens(1), then)) == match e.value() {
            Ok(v) => Ok::<(i64, TokenStream), CalcError>((v, then)),
            Err(x) => Err(x),
        },
{
    lemma_rule_follows_tree(e, 1, then);
}

/// `expr` reads one written expression: on the tokens of `e`, with any stream
/// behind them that starts with a token other than an operator, it computes
/// what `e` is worth and stops behind them, or fails as `e` does.
pub proof fn lemma_expr_follows_tree(e: Expr, then: TokenStream)
    requires
        then.first() matches Ok(t) && multiplicative(t) is None && additive(t) is None,
    ensures
        parse_expr(followed_by(e.tokens(0), then)) == match e.value() {
            Ok(v) => Ok::<(i64, TokenStream), CalcError>((v, then)),
            Err(x) => Err(x),
        },
{
    lemma_rule_follows_tree(e, 0, then);
}

/// The grammar gives an expression the value of its tree: on the tokens of
/// `e`, with nothing behind them, `expr` takes them all and computes what `e`
/// is worth, or fails as `e` does.
pub proof fn lemma_grammar_agrees_with_tree(e: Expr)
    ensures
        parse_expr(TokenStream { tokens: e.tokens(0), end: None }) == match e.value() {
            Ok(v) => Ok::<(i64, TokenStream), CalcError>((v, TokenStream::empty())),
            Err(x) => Err(x),
        },
{
    let then = TokenStream::empty();
    lemma_expr_follows_tree(e, then);
    assert(followed_by(e.tokens(0), then) == (TokenStream { tokens: e.tokens(0), end: None })) by {
        assert(followed_by(e.tokens(0), then).tokens =~= e.tokens(0));
    }
}

} // verus!
