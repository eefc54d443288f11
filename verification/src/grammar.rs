//! The value of a stream of tokens under the grammar
//!
//! ```text
//! expr   = term { ("+" | "-") term }
//! term   = factor { ("*" | "/") factor }
//! factor = INTEGER | "(" expr ")"
//! ```
//!
//! with one token of lookahead. Operators of one rank group to the left. Each
//! rule reads as far as it can and leaves what follows unread.

use crate::arith::Operator;
use crate::error::{CalcError, Expected};
use crate::stream::TokenStream;
use crate::token::Token;
use vstd::prelude::*;

verus! {

/// What a rule gives: the value it computed and the stream it left, or the
/// failure that stopped it.
pub type Parsed = Result<(i64, TokenStream), CalcError>;

/// Moving the lookahead to the next token: the stream behind the first token,
/// unless the lexer fails on what comes next.
pub open spec fn shift(s: TokenStream) -> Result<TokenStream, CalcError> {
    match s.rest().first() {
        Ok(_) => Ok(s.rest()),
        Err(e) => Err(e),
    }
}

/// The operator of the rank of `+` that `token` spells.
pub open spec fn additive(token: Token) -> Option<Operator> {
    match token {
        Token::Plus => Some(Operator::Add),
        Token::Minus => Some(Operator::Sub),
        _ => None,
    }
}

/// The operator of the rank of `*` that `token` spells.
pub open spec fn multiplicative(token: Token) -> Option<Operator> {
    match token {
        Token::Mul => Some(Operator::Mul),
        Token::Div => Some(Operator::Div),
        _ => None,
    }
}

/// `rest` holds no more tokens than `s`. Every rule leaves such a stream
/// (`lemma_rules_consume`); the definitions below ask for it where they go on
/// with the stream that another rule left, which makes them well-founded.
pub open spec fn within(rest: TokenStream, s: TokenStream) -> bool {
    rest.tokens.len() <= s.tokens.len()
}

/// `factor = INTEGER | "(" expr ")"`.
pub open spec fn parse_factor(s: TokenStream) -> Parsed
    decreases s.tokens.len(), 0int,
{
    match s.first() {
        Ok(Token::Integer(v)) => match shift(s) {
            Ok(rest) => Ok((v, rest)),
            Err(e) => Err(e),
        },
        Ok(Token::LeftParen) => match shift(s) {
            Ok(inner) => match parse_expr(inner) {
                Ok((v, after)) => match after.first() {
                    Ok(Token::RightParen) => match shift(after) {
                        Ok(rest) => Ok((v, rest)),
                        Err(e) => Err(e),
                    },
                    Ok(found) => Err(
                        CalcError::SyntaxError { expected: Expected::RightParen, found },
                    ),
                    Err(e) => Err(e),
                },
                Err(e) => Err(e),
            },
            Err(e) => Err(e),
        },
        Ok(found) => Err(CalcError::SyntaxError { expected: Expected::Factor, found }),
        Err(e) => Err(e),
    }
}

/// `{ ("*" | "/") factor }` behind a term whose value so far is `acc`.
pub open spec fn parse_term_rest(acc: i64, s: TokenStream) -> Parsed
    decreases s.tokens.len(), 1int,
{
    match s.first() {
        Ok(token) => match multiplicative(token) {
            Some(op) => match shift(s) {
                Ok(operand) => match parse_factor(operand) {
                    Ok((v, rest)) => match op.apply(acc, v) {
                        Ok(value) => if within(rest, operand) {
                            parse_term_rest(value, rest)
                        } else {
                            Ok((value, rest))
                        },
                        Err(e) => Err(e),
                    },
                    Err(e) => Err(e),
                },
                Err(e) => Err(e),
            },
            None => Ok((acc, s)),
        },
        Err(e) => Err(e),
    }
}

/// `term = factor { ("*" | "/") factor }`.
pub open spec fn parse_term(s: TokenStream) -> Parsed
    decreases s.tokens.len(), 2int,
{
    match parse_factor(s) {
        Ok((v, rest)) => if within(rest, s) {
            parse_term_rest(v, rest)
        } else {
            Ok((v, rest))
        },
        Err(e) => Err(e),
    }
}

/// `{ ("+" | "-") term }` behind an expression whose value so far is `acc`.
pub open spec fn parse_expr_rest(acc: i64, s: TokenStream) -> Parsed
    decreases s.tokens.len(), 3int,
{
    match s.first() {
        Ok(token) => match additive(token) {
            Some(op) => match shift(s) {
                Ok(operand) => match parse_term(operand) {
                    Ok((v, rest)) => match op.apply(acc, v) {
                        Ok(value) => if within(rest, operand) {
                            parse_expr_rest(value, rest)
                        } else {
                            Ok((value, rest))
                        },
                        Err(e) => Err(e),
                    },
                    Err(e) => Err(e),
                },
                Err(e) => Err(e),
            },
            None => Ok((acc, s)),
        },
        Err(e) => Err(e),
    }
}

/// `expr = term { ("+" | "-") term }`.
pub open spec fn parse_expr(s: TokenStream) -> Parsed
    decreases s.tokens.len(), 4int,
{
    match parse_term(s) {
        Ok((v, rest)) => if within(rest, s) {
            parse_expr_rest(v, rest)
        } else {
            Ok((v, rest))
        },
        Err(e) => Err(e),
    }
}

/// How many tokens `factor` asks the lexer for on `s`, the request that
/// fails, if one does, among them: one behind a number; one behind `(`, those
/// of the expression inside, and one behind `)`.
pub open spec fn requests_factor(s: TokenStream) -> nat
    decreases s.tokens.len(), 0int,
{
    match s.first() {
        Ok(Token::Integer(_)) => 1,
        Ok(Token::LeftParen) => match shift(s) {
            Ok(inner) => 1 + requests_expr(inner) + match parse_expr(inner) {
                Ok((_, after)) => if after.first() == Ok::<Token, CalcError>(Token::RightParen) {
                    1nat
                } else {
                    0nat
                },
                Err(_) => 0nat,
            },
            Err(_) => 1,
        },
        _ => 0,
    }
}

/// How many tokens `term` asks for on `s` behind its first factor, where the
/// value so far is `acc`.
pub open spec fn requests_term_rest(acc: i64, s: TokenStream) -> nat
    decreases s.tokens.len(), 1int,
{
    match s.first() {
        Ok(token) => match multiplicative(token) {
            Some(op) => match shift(s) {
                Ok(operand) => 1 + requests_factor(operand) + match parse_factor(operand) {
                    Ok((v, rest)) => match op.apply(acc, v) {
                        Ok(value) => if within(rest, operand) {
                            requests_term_rest(value, rest)
                        } else {
                            0nat
                        },
                        Err(_) => 0nat,
                    },
                    Err(_) => 0nat,
                },
                Err(_) => 1,
            },
            None => 0,
        },
        Err(_) => 0,
    }
}

/// How many tokens `term` asks the lexer for on `s`.
pub open spec fn requests_term(s: TokenStream) -> nat
    decreases s.tokens.len(), 2int,
{
    requests_factor(s) + match parse_factor(s) {
        Ok((v, rest)) => if within(rest, s) {
            requests_term_rest(v, rest)
        } else {
            0nat
        },
        Err(_) => 0nat,
    }
}

/// How many tokens `expr` asks for on `s` behind its first term, where the
/// value so far is `acc`.
pub open spec fn requests_expr_rest(acc: i64, s: TokenStream) -> nat
    decreases s.tokens.len(), 3int,
{
    match s.first() {
        Ok(token) => match additive(token) {
            Some(op) => match shift(s) {
                Ok(operand) => 1 + requests_term(operand) + match parse_term(operand) {
                    Ok((v, rest)) => match op.apply(acc, v) {
                        Ok(value) => if within(rest, operand) {
                            requests_expr_rest(value, rest)
                        } else {
                            0nat
                        },
                        Err(_) => 0nat,
                    },
                    Err(_) => 0nat,
                },
                Err(_) => 1,
            },
            None => 0,
        },
        Err(_) => 0,
    }
}

/// How many tokens `expr` asks the lexer for on `s`.
pub open spec fn requests_expr(s: TokenStream) -> nat
    decreases s.tokens.len(), 4int,
{
    requests_term(s) + match parse_term(s) {
        Ok((v, rest)) => if within(rest, s) {
            requests_expr_rest(v, rest)
        } else {
            0nat
        },
        Err(_) => 0nat,
    }
}

/// The stream that `parsed` left holds no more tokens than `s`, and its
/// lookahead is a token.
pub open spec fn consumes(parsed: Parsed, s: TokenStream) -> bool {
    parsed matches Ok((_, rest)) ==> within(rest, s) && rest.end == s.end && rest.first() is Ok
}

/// Every rule leaves a stream that it was given or a shorter one, with a
/// token as lookahead.
pub proof fn lemma_rules_consume(s: TokenStream)
    ensures
        consumes(parse_factor(s), s),
        consumes(parse_term(s), s),
        consumes(parse_expr(s), s),
        forall|acc: i64| consumes(#[trigger] parse_term_rest(acc, s), s),
        forall|acc: i64| consumes(#[trigger] parse_expr_rest(acc, s), s),
{
    lemma_factor_consumes(s);
    lemma_term_consumes(s);
    lemma_expr_consumes(s);
    assert forall|acc: i64| consumes(#[trigger] parse_term_rest(acc, s), s) by {
        lemma_term_rest_consumes(acc, s);
    }
    assert forall|acc: i64| consumes(#[trigger] parse_expr_rest(acc, s), s) by {
        lemma_expr_rest_consumes(acc, s);
    }
}

/// `lemma_rules_consume` for `factor`.
proof fn lemma_factor_consumes(s: TokenStream)
    ensures
        consumes(parse_factor(s), s),
    decreases s.tokens.len(), 0int,
{
    if s.first() == Ok::<Token, CalcError>(Token::LeftParen) {
        if let Ok(inner) = shift(s) {
            lemma_expr_consumes(inner);
        }
    }
}

/// `lemma_rules_consume` for what follows the first factor of a term.
proof fn lemma_term_rest_consumes(acc: i64, s: TokenStream)
    ensures
        consumes(parse_term_rest(acc, s), s),
    decreases s.tokens.len(), 1int,
{
    if let Ok(token) = s.first() {
        if let Some(op) = multiplicative(token) {
            if let Ok(operand) = shift(s) {
                lemma_factor_consumes(operand);
                if let Ok((v, rest)) = parse_factor(operand) {
                    if let Ok(value) = op.apply(acc, v) {
                        lemma_term_rest_consumes(value, rest);
                    }
                }
            }
        }
    }
}

/// `lemma_rules_consume` for `term`.
proof fn lemma_term_consumes(s: TokenStream)
    ensures
        consumes(parse_term(s), s),
    decreases s.tokens.len(), 2int,
{
    lemma_factor_consumes(s);
    if let Ok((v, rest)) = parse_factor(s) {
        lemma_term_rest_consumes(v, rest);
    }
}

/// `lemma_rules_consume` for what follows the first term of an expression.
proof fn lemma_expr_rest_consumes(acc: i64, s: TokenStream)
    ensures
        consumes(parse_expr_rest(acc, s), s),
    decreases s.tokens.len(), 3int,
{
    if let Ok(token) = s.first() {
        if let Some(op) = additive(token) {
            if let Ok(operand) = shift(s) {
                lemma_term_consumes(operand);
                if let Ok((v, rest)) = parse_term(operand) {
                    if let Ok(value) = op.apply(acc, v) {
                        lemma_expr_rest_consumes(value, rest);
                    }
                }
            }
        }
    }
}

/// `lemma_rules_consume` for `expr`.
proof fn lemma_expr_consumes(s: TokenStream)
    ensures
        consumes(parse_expr(s), s),
    decreases s.tokens.len(), 4int,
{
    lemma_term_consumes(s);
    if let Ok((v, rest)) = parse_term(s) {
        lemma_expr_rest_consumes(v, rest);
    }
}

/// Where `parsed` is a value, `count` is the number of tokens that it took
/// from `s`.
pub open spec fn takes(parsed: Parsed, count: nat, s: TokenStream) -> bool {
    parsed matches Ok((_, rest)) ==> count + rest.tokens.len() == s.tokens.len()
}

/// A rule that succeeds asks the lexer for as many tokens as it takes: one
/// behind each.
pub proof fn lemma_requests_are_tokens_taken(s: TokenStream)
    ensures
        takes(parse_factor(s), requests_factor(s), s),
        takes(parse_term(s), requests_term(s), s),
        takes(parse_expr(s), requests_expr(s), s),
        forall|acc: i64| takes(#[trigger] parse_term_rest(acc, s), requests_term_rest(acc, s), s),
        forall|acc: i64| takes(#[trigger] parse_expr_rest(acc, s), requests_expr_rest(acc, s), s),
{
    lemma_factor_takes(s);
    lemma_term_takes(s);
    lemma_expr_takes(s);
    assert forall|acc: i64|
        takes(#[trigger] parse_term_rest(acc, s), requests_term_rest(acc, s), s) by {
        lemma_term_rest_takes(acc, s);
    }
    assert forall|acc: i64|
        takes(#[trigger] parse_expr_rest(acc, s), requests_expr_rest(acc, s), s) by {
        lemma_expr_rest_takes(acc, s);
    }
}

/// `lemma_requests_are_tokens_taken` for `factor`.
proof fn lemma_factor_takes(s: TokenStream)
    ensures
        takes(parse_factor(s), requests_factor(s), s),
    decreases s.tokens.len(), 0int,
{
    if s.first() == Ok::<Token, CalcError>(Token::LeftParen) {
        if let Ok(inner) = shift(s) {
            lemma_expr_takes(inner);
        }
    }
}

/// `lemma_requests_are_tokens_taken` for what follows the first factor of a
/// term.
proof fn lemma_term_rest_takes(acc: i64, s: TokenStream)
    ensures
        takes(parse_term_rest(acc, s), requests_term_rest(acc, s), s),
    decreases s.tokens.len(), 1int,
{
    if let Ok(token) = s.first() {
        if let Some(op) = multiplicative(token) {
            if let Ok(operand) = shift(s) {
                lemma_factor_takes(operand);
                lemma_factor_consumes(operand);
                if let Ok((v, rest)) = parse_factor(operand) {
                    if let Ok(value) = op.apply(acc, v) {
                        lemma_term_rest_takes(value, rest);
                    }
                }
            }
        }
    }
}

/// `lemma_requests_are_tokens_taken` for `term`.
proof fn lemma_term_takes(s: TokenStream)
    ensures
        takes(parse_term(s), requests_term(s), s),
    decreases s.tokens.len(), 2int,
{
    lemma_factor_takes(s);
    lemma_factor_consumes(s);
    if let Ok((v, rest)) = parse_factor(s) {
        lemma_term_rest_takes(v, rest);
    }
}

/// `lemma_requests_are_tokens_taken` for what follows the first term of an
/// expression.
proof fn lemma_expr_rest_takes(acc: i64, s: TokenStream)
    ensures
        takes(parse_expr_rest(acc, s), requests_expr_rest(acc, s), s),
    decreases s.tokens.len(), 3int,
{
    if let Ok(token) = s.first() {
        if let Some(op) = additive(token) {
            if let Ok(operand) = shift(s) {
                lemma_term_takes(operand);
                lemma_term_consumes(operand);
                if let Ok((v, rest)) = parse_term(operand) {
                    if let Ok(value) = op.apply(acc, v) {
                        lemma_expr_rest_takes(value, rest);
                    }
                }
            }
        }
    }
}

/// `lemma_requests_are_tokens_taken` for `expr`.
proof fn lemma_expr_takes(s: TokenStream)
    ensures
        takes(parse_expr(s), requests_expr(s), s),
    decreases s.tokens.len(), 4int,
{
    lemma_term_takes(s);
    lemma_term_consumes(s);
    if let Ok((v, rest)) = parse_term(s) {
        lemma_expr_rest_takes(v, rest);
    }
}

} // verus!
