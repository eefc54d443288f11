//! What holds of every line: the value of a written expression is that of its
//! tree, and whitespace around tokens does not enter into it.

use crate::arith::Operator;
use crate::chains::{
    chain, chain_tokens, folded, lemma_chain, lemma_nested, nested, of_rank, repeated,
};
use crate::error::CalcError;
use crate::evaluate::line_value;
use crate::expression::{
    followed_by, lemma_factor_follows_tree, lemma_grammar_agrees_with_tree,
    lemma_term_follows_tree, Expr,
};
use crate::grammar::{parse_expr, parse_factor, parse_term};
use crate::spelling::{
    compose, is_gap, lemma_tokens_of_composition, lemma_tokens_of_spelling, separates, spell,
    spellable, written,
};
use crate::stream::{tokens_from, TokenStream};
use crate::words::{lemma_text_is_words_and_gaps, words_from};
use crate::token::Token;
use vstd::prelude::*;

verus! {

/// No two numbers stand side by side.
pub open spec fn numbers_apart(tokens: Seq<Token>) -> bool {
    forall|i: int|
        0 < i < tokens.len() ==> !(tokens[i - 1] is Integer && #[trigger] tokens[i] is Integer)
}

/// Tokens around a token that is no number keep their numbers apart.
proof fn lemma_numbers_apart_around(left: Seq<Token>, middle: Token, right: Seq<Token>)
    requires
        numbers_apart(left),
        numbers_apart(right),
        !(middle is Integer),
    ensures
        numbers_apart(left + seq![middle] + right),
{
    let all = left + seq![middle] + right;
    assert forall|i: int| 0 < i < all.len() implies !(all[i - 1] is Integer && #[trigger] all[i]
        is Integer) by {
        if i < left.len() {
            assert(all[i] == left[i] && all[i - 1] == left[i - 1]);
        } else if i == left.len() {
            assert(all[i] == middle);
        } else if i == left.len() + 1 {
            assert(all[i - 1] == middle);
        } else {
            assert(all[i] == right[i - left.len() - 1]);
            assert(all[i - 1] == right[i - left.len() - 2]);
        }
    }
}

/// Tokens around a token that can be written can be written, if they could
/// before.
proof fn lemma_spellable_around(left: Seq<Token>, middle: Token, right: Seq<Token>)
    requires
        spellable(left),
        spellable(right),
        spellable(seq![middle]),
    ensures
        spellable(left + seq![middle] + right),
{
    let all = left + seq![middle] + right;
    assert forall|i: int| 0 <= i < all.len() implies match #[trigger] all[i] {
        Token::Integer(v) => v >= 0,
        Token::EndOfInput => false,
        _ => true,
    } by {
        if i < left.len() {
            assert(all[i] == left[i]);
        } else if i == left.len() {
            assert(all[i] == seq![middle][0]);
        } else {
            assert(all[i] == right[i - left.len() - 1]);
        }
    }
}

/// Parentheses around tokens change nothing of this.
proof fn lemma_in_parentheses(inner: Seq<Token>)
    requires
        spellable(inner),
        numbers_apart(inner),
    ensures
        spellable(seq![Token::LeftParen] + inner + seq![Token::RightParen]),
        numbers_apart(seq![Token::LeftParen] + inner + seq![Token::RightParen]),
{
    let none = Seq::<Token>::empty();
    let opened = none + seq![Token::LeftParen] + inner;
    lemma_numbers_apart_around(none, Token::LeftParen, inner);
    lemma_spellable_around(none, Token::LeftParen, inner);
    lemma_numbers_apart_around(opened, Token::RightParen, none);
    lemma_spellable_around(opened, Token::RightParen, none);
    assert(seq![Token::LeftParen] + inner + seq![Token::RightParen] =~= opened + seq![
        Token::RightParen,
    ] + none);
}

/// An expression without negative numbers can be written, and as it is
/// written no two numbers stand side by side: whitespace is needed nowhere.
pub proof fn lemma_expression_is_spellable(e: Expr, level: int)
    requires
        e.literals_nonnegative(),
        0 <= level,
    ensures
        spellable(e.tokens(level)),
        numbers_apart(e.tokens(level)),
    decreases e, level,
{
    if e.rank() < level {
        lemma_expression_is_spellable(e, 0);
        lemma_in_parentheses(e.tokens(0));
    } else {
        match e {
            Expr::Literal(n) => {},
            Expr::Binary(op, left, right) => {
                lemma_expression_is_spellable(*left, op.rank());
                lemma_expression_is_spellable(*right, op.rank() + 1);
                lemma_numbers_apart_around(
                    left.tokens(op.rank()),
                    op.token(),
                    right.tokens(op.rank() + 1),
                );
                lemma_spellable_around(
                    left.tokens(op.rank()),
                    op.token(),
                    right.tokens(op.rank() + 1),
                );
            },
            Expr::Group(inner) => {
                lemma_expression_is_spellable(*inner, 0);
                lemma_in_parentheses(inner.tokens(0));
            },
        }
    }
}

/// Whitespace does not matter: words read as the same tokens, and are worth
/// the same as a line, whatever whitespace stands before, between and behind
/// them, as long as two numbers that follow each other are kept apart. The
/// words may write their numbers with zeros in front.
pub proof fn lemma_whitespace_is_immaterial(
    words: Seq<Seq<char>>,
    tokens: Seq<Token>,
    gaps: Seq<Seq<char>>,
    other_gaps: Seq<Seq<char>>,
)
    requires
        written(words, tokens),
        separates(gaps, tokens),
        separates(other_gaps, tokens),
    ensures
        tokens_from(compose(words, gaps), 0) == tokens_from(compose(words, other_gaps), 0),
        line_value(compose(words, gaps)) == line_value(compose(words, other_gaps)),
{
    lemma_tokens_of_composition(words, tokens, gaps);
    lemma_tokens_of_composition(words, tokens, other_gaps);
}

/// Whitespace does not matter in any text: a text that the lexer reads to
/// its end without failure, and the text of its words with any other
/// whitespace around them that keeps two numbers apart, read as the same
/// tokens and are worth the same as lines.
pub proof fn lemma_whitespace_around_words(text: Seq<char>, gaps: Seq<Seq<char>>)
    requires
        tokens_from(text, 0).end is None,
        separates(gaps, tokens_from(text, 0).tokens),
    ensures
        tokens_from(compose(words_from(text, 0), gaps), 0) == tokens_from(text, 0),
        line_value(compose(words_from(text, 0), gaps)) == line_value(text),
{
    lemma_text_is_words_and_gaps(text);
    lemma_tokens_of_composition(words_from(text, 0), tokens_from(text, 0).tokens, gaps);
}

/// A written expression is worth what its tree is worth: for every
/// expression without negative numbers, and whatever whitespace stands
/// around its tokens, the value of the line is the value of the expression,
/// computed with the operators of one rank from left to right and `*` and `/`
/// before `+` and `-`; where that computation fails, the line fails in the
/// same way.
pub proof fn lemma_line_value_of_expression(e: Expr, gaps: Seq<Seq<char>>)
    requires
        e.literals_nonnegative(),
        gaps.len() == e.tokens(0).len() + 1,
        forall|i: int| 0 <= i < gaps.len() ==> is_gap(#[trigger] gaps[i]),
    ensures
        line_value(spell(e.tokens(0), gaps)) == e.value(),
{
    lemma_expression_is_spellable(e, 0);
    assert(separates(gaps, e.tokens(0)));
    lemma_tokens_of_spelling(e.tokens(0), gaps);
    lemma_grammar_agrees_with_tree(e);
    assert((TokenStream { tokens: e.tokens(0), end: None::<CalcError> }).first() is Ok);
}

/// The same line has the same value: what a line is worth depends on its
/// characters alone, and on nothing that an earlier evaluation left behind.
pub proof fn lemma_same_line_same_value(line: Seq<char>, again: Seq<char>)
    requires
        line.len() == again.len(),
        forall|i: int| 0 <= i < line.len() ==> line[i] == again[i],
    ensures
        line_value(line) == line_value(again),
{
    assert(line =~= again);
}

/// A written expression under each rule: for every expression without
/// negative numbers, written for rank `level` with whatever whitespace around
/// its tokens, the lexer reads its tokens and no more, and the rule of that
/// rank (`expr` for 0, `term` for 1, `factor` for 2) takes them all and
/// computes what the expression is worth, or fails as it does.
pub proof fn lemma_rules_on_written_expression(e: Expr, level: int, gaps: Seq<Seq<char>>)
    requires
        e.literals_nonnegative(),
        0 <= level <= 2,
        gaps.len() == e.tokens(level).len() + 1,
        forall|i: int| 0 <= i < gaps.len() ==> is_gap(#[trigger] gaps[i]),
    ensures
        tokens_from(spell(e.tokens(level), gaps), 0) == (TokenStream {
            tokens: e.tokens(level),
            end: None,
        }),
        (if level == 0 {
            parse_expr(tokens_from(spell(e.tokens(level), gaps), 0))
        } else if level == 1 {
            parse_term(tokens_from(spell(e.tokens(level), gaps), 0))
        } else {
            parse_factor(tokens_from(spell(e.tokens(level), gaps), 0))
        }) == match e.value() {
            Ok(v) => Ok::<(i64, TokenStream), CalcError>((v, TokenStream::empty())),
            Err(x) => Err(x),
        },
{
    let then = TokenStream::empty();
    lemma_expression_is_spellable(e, level);
    assert(separates(gaps, e.tokens(level)));
    lemma_tokens_of_spelling(e.tokens(level), gaps);
    assert(followed_by(e.tokens(level), then) == (TokenStream {
        tokens: e.tokens(level),
        end: None,
    })) by {
        assert(followed_by(e.tokens(level), then).tokens =~= e.tokens(level));
    }
    if level == 0 {
        lemma_grammar_agrees_with_tree(e);
    } else if level == 1 {
        lemma_term_follows_tree(e, then);
    } else {
        lemma_factor_follows_tree(e, then);
    }
}

/// No number in the chain is negative.
pub open spec fn chain_nonnegative(first: Expr, links: Seq<(Operator, Expr)>) -> bool {
    &&& first.literals_nonnegative()
    &&& forall|i: int| 0 <= i < links.len() ==> (#[trigger] links[i]).1.literals_nonnegative()
}

/// The tree of a chain without negative numbers has none either.
proof fn lemma_chain_nonnegative(first: Expr, links: Seq<(Operator, Expr)>)
    requires
        chain_nonnegative(first, links),
    ensures
        chain(first, links).literals_nonnegative(),
    decreases links.len(),
{
    if links.len() > 0 {
        let before = links.drop_last();
        assert forall|i: int| 0 <= i < before.len() implies (
        #[trigger] before[i]).1.literals_nonnegative() by {
            assert(before[i] == links[i]);
        }
        lemma_chain_nonnegative(first, before);
        assert(links.last() == links[links.len() - 1]);
    }
}

/// A written chain of `*` and `/` under `term`: for a chain of any length
/// without negative numbers, with whatever whitespace around its tokens,
/// `term` takes all that the lexer reads and computes what the chain is worth
/// strictly from left to right, or fails with the first failure on that way.
pub proof fn lemma_term_on_written_chain(
    first: Expr,
    links: Seq<(Operator, Expr)>,
    gaps: Seq<Seq<char>>,
)
    requires
        of_rank(links, 1),
        chain_nonnegative(first, links),
        gaps.len() == chain_tokens(first, links, 1).len() + 1,
        forall|i: int| 0 <= i < gaps.len() ==> is_gap(#[trigger] gaps[i]),
    ensures
        parse_term(tokens_from(spell(chain_tokens(first, links, 1), gaps), 0)) == match folded(
            first.value(),
            links,
        ) {
            Ok(v) => Ok::<(i64, TokenStream), CalcError>((v, TokenStream::empty())),
            Err(x) => Err(x),
        },
{
    lemma_chain(first, links, 1);
    lemma_chain_nonnegative(first, links);
    lemma_rules_on_written_expression(chain(first, links), 1, gaps);
}

/// A written chain of `+` and `-` under `expr`: for a chain of any length
/// without negative numbers, with whatever whitespace around its tokens,
/// `expr` takes all that the lexer reads and computes what the chain is worth
/// strictly from left to right, or fails with the first failure on that way.
pub proof fn lemma_expr_on_written_chain(
    first: Expr,
    links: Seq<(Operator, Expr)>,
    gaps: Seq<Seq<char>>,
)
    requires
        of_rank(links, 0),
        chain_nonnegative(first, links),
        gaps.len() == chain_tokens(first, links, 0).len() + 1,
        forall|i: int| 0 <= i < gaps.len() ==> is_gap(#[trigger] gaps[i]),
    ensures
        parse_expr(tokens_from(spell(chain_tokens(first, links, 0), gaps), 0)) == match folded(
            first.value(),
            links,
        ) {
            Ok(v) => Ok::<(i64, TokenStream), CalcError>((v, TokenStream::empty())),
            Err(x) => Err(x),
        },
{
    lemma_chain(first, links, 0);
    lemma_chain_nonnegative(first, links);
    lemma_rules_on_written_expression(chain(first, links), 0, gaps);
}

/// Written parentheses to any depth under `factor`: for an expression
/// without negative numbers in `depth` pairs of parentheses, with whatever
/// whitespace around the tokens, `factor` takes all that the lexer reads and
/// computes what the expression is worth, or fails as it does.
pub proof fn lemma_factor_on_written_nested(e: Expr, depth: nat, gaps: Seq<Seq<char>>)
    requires
        depth >= 1,
        e.literals_nonnegative(),
        gaps.len() == 2 * depth + e.tokens(0).len() + 1,
        forall|i: int| 0 <= i < gaps.len() ==> is_gap(#[trigger] gaps[i]),
    ensures
        parse_factor(
            tokens_from(
                spell(
                    repeated(Token::LeftParen, depth) + e.tokens(0) + repeated(
                        Token::RightParen,
                        depth,
                    ),
                    gaps,
                ),
                0,
            ),
        ) == match e.value() {
            Ok(v) => Ok::<(i64, TokenStream), CalcError>((v, TokenStream::empty())),
            Err(x) => Err(x),
        },
{
    lemma_nested(e, depth, 2);
    lemma_nested_nonnegative(e, depth);
    lemma_rules_on_written_expression(nested(e, depth), 2, gaps);
}

/// Parentheses bring no negative number.
proof fn lemma_nested_nonnegative(e: Expr, depth: nat)
    requires
        e.literals_nonnegative(),
    ensures
        nested(e, depth).literals_nonnegative(),
    decreases depth,
{
    if depth > 0 {
        lemma_nested_nonnegative(e, (depth - 1) as nat);
    }
}

} // verus!
