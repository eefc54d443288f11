//! Chains of operators of one rank, taken from left to right, and
//! parentheses nested to any depth.

use crate::arith::Operator;
use crate::error::CalcError;
use crate::expression::{
    combined, followed_by, lemma_expr_follows_tree, lemma_factor_follows_tree,
    lemma_term_follows_tree, Expr,
};
use crate::grammar::{additive, multiplicative, parse_expr, parse_factor, parse_term};
use crate::stream::TokenStream;
use crate::token::Token;
use vstd::prelude::*;

verus! {

/// The tree of a chain: `first`, and then each operator of `links` with the
/// operand behind it, grouped to the left.
pub open spec fn chain(first: Expr, links: Seq<(Operator, Expr)>) -> Expr
    decreases links.len(),
{
    if links.len() == 0 {
        first
    } else {
        Expr::Binary(
            links.last().0,
            Box::new(chain(first, links.drop_last())),
            Box::new(links.last().1),
        )
    }
}

/// What a chain is worth, taken strictly from left to right: `first` where
/// there is no link, and else what the last operator makes of the chain
/// before it and of its own operand.
pub open spec fn folded(first: Result<i64, CalcError>, links: Seq<(Operator, Expr)>) -> Result<
    i64,
    CalcError,
>
    decreases links.len(),
{
    if links.len() == 0 {
        first
    } else {
        combined(links.last().0, folded(first, links.drop_last()), links.last().1.value())
    }
}

/// A chain as it is written where its operators have rank `rank`: `first`,
/// and then each operator with its operand, which is in parentheses where its
/// own rank is not higher.
pub open spec fn chain_tokens(first: Expr, links: Seq<(Operator, Expr)>, rank: int) -> Seq<Token>
    decreases links.len(),
{
    if links.len() == 0 {
        first.tokens(rank)
    } else {
        chain_tokens(first, links.drop_last(), rank) + seq![links.last().0.token()]
            + links.last().1.tokens(rank + 1)
    }
}

/// Every operator of the chain has rank `rank`.
pub open spec fn of_rank(links: Seq<(Operator, Expr)>, rank: int) -> bool {
    forall|i: int| 0 <= i < links.len() ==> (#[trigger] links[i]).0.rank() == rank
}

/// The tree of a chain is worth what the chain is worth from left to right,
/// and is written as the chain is.
pub proof fn lemma_chain(first: Expr, links: Seq<(Operator, Expr)>, rank: int)
    requires
        of_rank(links, rank),
    ensures
        chain(first, links).value() == folded(first.value(), links),
        chain(first, links).tokens(rank) == chain_tokens(first, links, rank),
    decreases links.len(),
{
    if links.len() > 0 {
        let before = links.drop_last();
        assert forall|i: int| 0 <= i < before.len() implies (#[trigger] before[i]).0.rank()
            == rank by {
            assert(before[i] == links[i]);
        }
        lemma_chain(first, before, rank);
        assert(links.last() == links[links.len() - 1]);
        assert(chain(first, links).rank() == rank);
    }
}

/// `term` takes a chain of `*` and `/` from left to right: on a chain of any
/// length, with a stream behind it that starts with a token other than `*`
/// and `/`, it computes what the chain is worth from left to right and stops
/// behind it, or fails with the first failure on that way.
pub proof fn lemma_term_on_chain(first: Expr, links: Seq<(Operator, Expr)>, then: TokenStream)
    requires
        of_rank(links, 1),
        then.first() matches Ok(t) && multiplicative(t) is None,
    ensures
        parse_term(followed_by(chain_tokens(first, links, 1), then)) == match folded(
            first.value(),
            links,
        ) {
            Ok(v) => Ok::<(i64, TokenStream), CalcError>((v, then)),
            Err(x) => Err(x),
        },
{
    lemma_chain(first, links, 1);
    lemma_term_follows_tree(chain(first, links), then);
}

/// `expr` takes a chain of `+` and `-` from left to right: on a chain of any
/// length, with a stream behind it that starts with a token other than an
/// operator, it computes what the chain is worth from left to right and
/// stops behind it, or fails with the first failure on that way.
pub proof fn lemma_expr_on_chain(first: Expr, links: Seq<(Operator, Expr)>, then: TokenStream)
    requires
        of_rank(links, 0),
        then.first() matches Ok(t) && multiplicative(t) is None && additive(t) is None,
    ensures
        parse_expr(followed_by(chain_tokens(first, links, 0), then)) == match folded(
            first.value(),
            links,
        ) {
            Ok(v) => Ok::<(i64, TokenStream), CalcError>((v, then)),
            Err(x) => Err(x),
        },
{
    lemma_chain(first, links, 0);
    lemma_expr_follows_tree(chain(first, links), then);
}

/// Some link divides by an operand that is worth zero.
pub open spec fn divides_by_zero(links: Seq<(Operator, Expr)>) -> bool {
    exists|i: int|
        0 <= i < links.len() && (#[trigger] links[i]).0 == Operator::Div && links[i].1.value()
            == Ok::<i64, CalcError>(0)
}

/// Division by zero, and nothing else: a chain whose operands all have a
/// value, and in which nothing overflows, fails with `DivisionByZero` if and
/// only if one of its links divides by an operand that is worth zero, and
/// else has a value. A zero that is divided is no failure.
pub proof fn lemma_chain_division_by_zero(first: i64, links: Seq<(Operator, Expr)>)
    requires
        forall|i: int| 0 <= i < links.len() ==> (#[trigger] links[i]).1.value() is Ok,
        folded(Ok(first), links) != Err::<i64, CalcError>(CalcError::IntegerOverflow),
    ensures
        folded(Ok(first), links) == Err::<i64, CalcError>(CalcError::DivisionByZero)
            <==> divides_by_zero(links),
        !divides_by_zero(links) ==> folded(Ok(first), links) is Ok,
    decreases links.len(),
{
    if links.len() > 0 {
        let before = links.drop_last();
        let last = links.last();
        assert(last == links[links.len() - 1]);
        assert forall|i: int| 0 <= i < before.len() implies (#[trigger] before[i]).1.value()
            is Ok by {
            assert(before[i] == links[i]);
        }
        lemma_chain_division_by_zero(first, before);
        if divides_by_zero(before) {
            let i = choose|i: int|
                0 <= i < before.len() && (#[trigger] before[i]).0 == Operator::Div
                    && before[i].1.value() == Ok::<i64, CalcError>(0);
            assert(before[i] == links[i]);
            assert(divides_by_zero(links));
        }
        if divides_by_zero(links) && !divides_by_zero(before) {
            let i = choose|i: int|
                0 <= i < links.len() && (#[trigger] links[i]).0 == Operator::Div
                    && links[i].1.value() == Ok::<i64, CalcError>(0);
            if i < before.len() {
                assert(before[i] == links[i]);
            }
            assert(i == links.len() - 1);
        }
    }
}

/// `e` in `depth` pairs of parentheses.
pub open spec fn nested(e: Expr, depth: nat) -> Expr
    decreases depth,
{
    if depth == 0 {
        e
    } else {
        Expr::Group(Box::new(nested(e, (depth - 1) as nat)))
    }
}

/// `count` times `token`.
pub open spec fn repeated(token: Token, count: nat) -> Seq<Token> {
    Seq::new(count, |i: int| token)
}

/// Parentheses change nothing of the value, and are written around the
/// expression, all that open before it and all that close behind it.
pub proof fn lemma_nested(e: Expr, depth: nat, level: int)
    requires
        depth >= 1,
        level <= 2,
    ensures
        nested(e, depth).value() == e.value(),
        nested(e, depth).tokens(level) == repeated(Token::LeftParen, depth) + e.tokens(0)
            + repeated(Token::RightParen, depth),
    decreases depth,
{
    let inner = nested(e, (depth - 1) as nat);
    let written = repeated(Token::LeftParen, depth) + e.tokens(0) + repeated(
        Token::RightParen,
        depth,
    );
    assert(nested(e, depth).tokens(level) == seq![Token::LeftParen] + inner.tokens(0) + seq![
        Token::RightParen,
    ]);
    if depth == 1 {
        assert(written =~= seq![Token::LeftParen] + e.tokens(0) + seq![Token::RightParen]);
    } else {
        lemma_nested(e, (depth - 1) as nat, 0);
        let less = (depth - 1) as nat;
        assert(written =~= seq![Token::LeftParen] + (repeated(Token::LeftParen, less) + e.tokens(0)
            + repeated(Token::RightParen, less)) + seq![Token::RightParen]);
    }
}

/// Parentheses to any depth: on an expression in `depth` pairs of
/// parentheses, `factor` computes what the expression is worth and stops
/// behind the last of them, or fails as the expression does.
pub proof fn lemma_factor_on_nested(e: Expr, depth: nat, then: TokenStream)
    requires
        depth >= 1,
        then.first() is Ok,
    ensures
        parse_factor(
            followed_by(
                repeated(Token::LeftParen, depth) + e.tokens(0) + repeated(
                    Token::RightParen,
                    depth,
                ),
                then,
            ),
        ) == match e.value() {
            Ok(v) => Ok::<(i64, TokenStream), CalcError>((v, then)),
            Err(x) => Err(x),
        },
{
    lemma_nested(e, depth, 2);
    lemma_factor_follows_tree(nested(e, depth), then);
}

} // verus!
