//! What the grammar accepts is an expression: the tokens that a rule takes
//! are those of a tree, and the value it computes is the value of that tree.

use crate::error::CalcError;
use crate::expression::Expr;
use crate::grammar::{
    additive, lemma_rules_consume, multiplicative, parse_expr, parse_expr_rest, parse_factor,
    parse_term, parse_term_rest, within, Parsed,
};
use crate::stream::TokenStream;
use crate::token::Token;
use vstd::prelude::*;

verus! {

/// The tree that `factor` reads from `s`, where it reads one.
spec fn tree_factor(s: TokenStream) -> Expr
    decreases s.tokens.len(), 0int,
{
    match s.first() {
        Ok(Token::LeftParen) => Expr::Group(Box::new(tree_expr(s.rest()))),
        Ok(Token::Integer(v)) => Expr::Literal(v),
        _ => Expr::Literal(0),
    }
}

/// The tree that `term` has read when it went on from `s` with `tree` read
/// and worth `acc`.
spec fn tree_term_rest(tree: Expr, acc: i64, s: TokenStream) -> Expr
    decreases s.tokens.len(), 1int,
{
    match s.first() {
        Ok(token) => match (multiplicative(token), parse_factor(s.rest())) {
            (Some(op), Ok((v, rest))) => match op.apply(acc, v) {
                Ok(value) => if s.tokens.len() > 0 && within(rest, s.rest()) {
                    tree_term_rest(
                        Expr::Binary(op, Box::new(tree), Box::new(tree_factor(s.rest()))),
                        value,
                        rest,
                    )
                } else {
                    tree
                },
                Err(_) => tree,
            },
            _ => tree,
        },
        Err(_) => tree,
    }
}

/// The tree that `term` reads from `s`, where it reads one.
spec fn tree_term(s: TokenStream) -> Expr
    decreases s.tokens.len(), 2int,
{
    match parse_factor(s) {
        Ok((v, rest)) => if within(rest, s) {
            tree_term_rest(tree_factor(s), v, rest)
        } else {
            tree_factor(s)
        },
        Err(_) => tree_factor(s),
    }
}

/// The tree that `expr` has read when it went on from `s` with `tree` read
/// and worth `acc`.
spec fn tree_expr_rest(tree: Expr, acc: i64, s: TokenStream) -> Expr
    decreases s.tokens.len(), 3int,
{
    match s.first() {
        Ok(token) => match (additive(token), parse_term(s.rest())) {
            (Some(op), Ok((v, rest))) => match op.apply(acc, v) {
                Ok(value) => if s.tokens.len() > 0 && within(rest, s.rest()) {
                    tree_expr_rest(
                        Expr::Binary(op, Box::new(tree), Box::new(tree_term(s.rest()))),
                        value,
                        rest,
                    )
                } else {
                    tree
                },
                Err(_) => tree,
            },
            _ => tree,
        },
        Err(_) => tree,
    }
}

/// The tree that `expr` reads from `s`, where it reads one.
spec fn tree_expr(s: TokenStream) -> Expr
    decreases s.tokens.len(), 4int,
{
    match parse_term(s) {
        Ok((v, rest)) => if within(rest, s) {
            tree_expr_rest(tree_term(s), v, rest)
        } else {
            tree_term(s)
        },
        Err(_) => tree_term(s),
    }
}

/// `tree`, written for rank `level`, is what `parsed` took from the front of
/// `s`, and is worth what `parsed` computed.
spec fn took(parsed: Parsed, s: TokenStream, tree: Expr, level: int) -> bool {
    parsed matches Ok((v, rest)) ==> {
        &&& tree.value() == Ok::<i64, CalcError>(v)
        &&& tree.rank() >= level
        &&& s.tokens == tree.tokens(level) + rest.tokens
    }
}

/// Where `before` is what was taken in front of `s`: `tree`, written for rank
/// `level`, is that and what `parsed` took from the front of `s` besides, and
/// is worth what `parsed` computed.
spec fn took_more(parsed: Parsed, before: Expr, s: TokenStream, tree: Expr, level: int) -> bool {
    parsed matches Ok((v, rest)) ==> {
        &&& tree.value() == Ok::<i64, CalcError>(v)
        &&& tree.rank() >= level
        &&& before.tokens(level) + s.tokens == tree.tokens(level) + rest.tokens
    }
}

/// A stream that starts with a token is that token and the rest.
proof fn lemma_first_and_rest(s: TokenStream)
    requires
        s.tokens.len() > 0,
    ensures
        s.tokens == seq![s.tokens[0]] + s.rest().tokens,
{
    assert(s.tokens =~= seq![s.tokens[0]] + s.rest().tokens);
}

/// What `factor` accepts is a number or an expression in parentheses.
proof fn lemma_factor_took(s: TokenStream)
    ensures
        took(parse_factor(s), s, tree_factor(s), 2),
    decreases s.tokens.len(), 0int,
{
    if let Ok((v, rest)) = parse_factor(s) {
        lemma_first_and_rest(s);
        if s.first() == Ok::<Token, CalcError>(Token::LeftParen) {
            let inner = s.rest();
            lemma_expr_took(inner);
            let after = parse_expr(inner)->Ok_0.1;
            let tree = tree_expr(inner);
            lemma_first_and_rest(after);
            assert(s.tokens =~= seq![Token::LeftParen] + tree.tokens(0) + seq![Token::RightParen]
                + rest.tokens);
        }
    }
}

/// What `term` accepts behind a term is a product of that term.
proof fn lemma_term_rest_took(tree: Expr, acc: i64, s: TokenStream)
    requires
        tree.value() == Ok::<i64, CalcError>(acc),
        tree.rank() >= 1,
    ensures
        took_more(parse_term_rest(acc, s), tree, s, tree_term_rest(tree, acc, s), 1),
    decreases s.tokens.len(), 1int,
{
    if let Ok((v, rest)) = parse_term_rest(acc, s) {
        let token = s.first()->Ok_0;
        if let Some(op) = multiplicative(token) {
            let operand = s.rest();
            lemma_first_and_rest(s);
            lemma_factor_took(operand);
            lemma_rules_consume(operand);
            let (b, behind) = parse_factor(operand)->Ok_0;
            let value = op.apply(acc, b)->Ok_0;
            let product = Expr::Binary(op, Box::new(tree), Box::new(tree_factor(operand)));
            assert(product.value() == Ok::<i64, CalcError>(value));
            assert(product.tokens(1) == tree.tokens(1) + seq![token] + tree_factor(operand).tokens(
                2,
            ));
            lemma_term_rest_took(product, value, behind);
            assert(tree.tokens(1) + s.tokens =~= product.tokens(1) + behind.tokens);
        }
    }
}

/// What `term` accepts is a factor or a product.
proof fn lemma_term_took(s: TokenStream)
    ensures
        took(parse_term(s), s, tree_term(s), 1),
    decreases s.tokens.len(), 2int,
{
    if let Ok((v, rest)) = parse_term(s) {
        lemma_factor_took(s);
        lemma_rules_consume(s);
        let (a, behind) = parse_factor(s)->Ok_0;
        let tree = tree_factor(s);
        assert(tree.tokens(1) == tree.tokens(2));
        lemma_term_rest_took(tree, a, behind);
    }
}

/// What `expr` accepts behind an expression is a sum of that expression.
proof fn lemma_expr_rest_took(tree: Expr, acc: i64, s: TokenStream)
    requires
        tree.value() == Ok::<i64, CalcError>(acc),
    ensures
        took_more(parse_expr_rest(acc, s), tree, s, tree_expr_rest(tree, acc, s), 0),
    decreases s.tokens.len(), 3int,
{
    if let Ok((v, rest)) = parse_expr_rest(acc, s) {
        let token = s.first()->Ok_0;
        if let Some(op) = additive(token) {
            let operand = s.rest();
            lemma_first_and_rest(s);
            lemma_term_took(operand);
            lemma_rules_consume(operand);
            let (b, behind) = parse_term(operand)->Ok_0;
            let value = op.apply(acc, b)->Ok_0;
            let sum = Expr::Binary(op, Box::new(tree), Box::new(tree_term(operand)));
            assert(sum.value() == Ok::<i64, CalcError>(value));
            assert(sum.tokens(0) == tree.tokens(0) + seq![token] + tree_term(operand).tokens(1));
            lemma_expr_rest_took(sum, value, behind);
            assert(tree.tokens(0) + s.tokens =~= sum.tokens(0) + behind.tokens);
        }
    }
}

/// What `expr` accepts is a term or a sum.
proof fn lemma_expr_took(s: TokenStream)
    ensures
        took(parse_expr(s), s, tree_expr(s), 0),
    decreases s.tokens.len(), 4int,
{
    if let Ok((v, rest)) = parse_expr(s) {
        lemma_term_took(s);
        lemma_rules_consume(s);
        let (a, behind) = parse_term(s)->Ok_0;
        let tree = tree_term(s);
        assert(tree.tokens(0) == tree.tokens(1));
        lemma_expr_rest_took(tree, a, behind);
    }
}

/// What the grammar accepts is an expression: where `expr` computes a value
/// from a stream, the tokens that it took are those of an expression that is
/// worth that value.
pub proof fn lemma_accepted_is_expression(s: TokenStream)
    ensures
        parse_expr(s) matches Ok((v, rest)) ==> exists|e: Expr|
            s.tokens == #[trigger] e.tokens(0) + rest.tokens && e.value() == Ok::<i64, CalcError>(
                v,
            ),
{
    lemma_expr_took(s);
    if let Ok((v, rest)) = parse_expr(s) {
        let e = tree_expr(s);
        assert(s.tokens == e.tokens(0) + rest.tokens && e.value() == Ok::<i64, CalcError>(v));
    }
}

} // verus!
