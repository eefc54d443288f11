//! A text taken apart: the words that the lexer reads and the whitespace
//! around them.

use crate::chars::{is_digit, is_whitespace};
use crate::error::CalcError;
use crate::scan::{
    digits_end, lemma_decimal_value_nonnegative, lemma_digits_end, lemma_scan_advances,
    lemma_skip_whitespace, scan, skip_whitespace,
};
use crate::spelling::{compose, compose_from, is_gap, separates, spells, written};
use crate::stream::tokens_from;
use crate::token::Token;
use vstd::prelude::*;

verus! {

/// The words of `text` from `pos` on: for each token that the lexer reads,
/// the characters that it is read from.
pub open spec fn words_from(text: Seq<char>, pos: int) -> Seq<Seq<char>>
    decreases text.len() - pos,
{
    if 0 <= pos <= text.len() {
        match scan(text, pos).0 {
            Ok(Token::EndOfInput) => Seq::empty(),
            Ok(_) => {
                proof {
                    lemma_scan_advances(text, pos);
                }
                seq![text.subrange(skip_whitespace(text, pos), scan(text, pos).1)] + words_from(
                    text,
                    scan(text, pos).1,
                )
            },
            Err(_) => Seq::empty(),
        }
    } else {
        Seq::empty()
    }
}

/// The gaps of `text` from `pos` on: the whitespace that the lexer passes
/// before each token that it reads, and before the end of the text.
pub open spec fn gaps_from(text: Seq<char>, pos: int) -> Seq<Seq<char>>
    decreases text.len() - pos,
{
    if 0 <= pos <= text.len() {
        match scan(text, pos).0 {
            Ok(Token::EndOfInput) => seq![text.subrange(pos, text.len() as int)],
            Ok(_) => {
                proof {
                    lemma_scan_advances(text, pos);
                }
                seq![text.subrange(pos, skip_whitespace(text, pos))] + gaps_from(
                    text,
                    scan(text, pos).1,
                )
            },
            Err(_) => seq![Seq::empty()],
        }
    } else {
        seq![Seq::empty()]
    }
}

/// A text of words behind one word more is the text of the words.
proof fn lemma_compose_behind(
    word: Seq<char>,
    words: Seq<Seq<char>>,
    gap: Seq<char>,
    gaps: Seq<Seq<char>>,
    from: int,
)
    requires
        0 <= from <= words.len(),
        gaps.len() == words.len() + 1,
    ensures
        compose_from(seq![word] + words, seq![gap] + gaps, from + 1) == compose_from(
            words,
            gaps,
            from,
        ),
    decreases words.len() - from,
{
    let more_words = seq![word] + words;
    let more_gaps = seq![gap] + gaps;
    assert(more_gaps[from + 1] == gaps[from]);
    if from < words.len() {
        assert(more_words[from + 1] == words[from]);
        lemma_compose_behind(word, words, gap, gaps, from + 1);
    }
}

/// What the lexer reads a token from is a word for it, and the whitespace
/// before it is a gap; where the token is a number, no digit stands behind
/// the word.
proof fn lemma_first_word(text: Seq<char>, pos: int)
    requires
        0 <= pos <= text.len(),
        scan(text, pos).0 is Ok,
        scan(text, pos).0 != Ok::<Token, CalcError>(Token::EndOfInput),
    ensures
        pos <= skip_whitespace(text, pos) < scan(text, pos).1 <= text.len(),
        is_gap(text.subrange(pos, skip_whitespace(text, pos))),
        spells(
            text.subrange(skip_whitespace(text, pos), scan(text, pos).1),
            scan(text, pos).0->Ok_0,
        ),
        scan(text, pos).0->Ok_0 is Integer <==> is_digit(text[skip_whitespace(text, pos)]),
        scan(text, pos).0->Ok_0 is Integer && scan(text, pos).1 < text.len() ==> !is_digit(
            text[scan(text, pos).1],
        ),
{
    let start = skip_whitespace(text, pos);
    let next = scan(text, pos).1;
    let word = text.subrange(start, next);
    lemma_skip_whitespace(text, pos);
    lemma_scan_advances(text, pos);
    assert forall|k: int| 0 <= k < text.subrange(pos, start).len() implies is_whitespace(
        #[trigger] text.subrange(pos, start)[k],
    ) by {
        assert(text.subrange(pos, start)[k] == text[pos + k]);
    }
    if is_digit(text[start]) {
        lemma_digits_end(text, start);
        assert forall|k: int| 0 <= k < word.len() implies is_digit(#[trigger] word[k]) by {
            assert(word[k] == text[start + k]);
        }
        lemma_decimal_value_nonnegative(word);
        assert(next == digits_end(text, start));
    } else {
        assert(word =~= seq![text[start]]);
    }
}

/// A text that the lexer reads to its end is its words with its gaps around
/// them, from any place where the lexer stops.
proof fn lemma_words_and_gaps_from(text: Seq<char>, pos: int)
    requires
        0 <= pos <= text.len(),
        tokens_from(text, pos).end is None,
    ensures
        written(words_from(text, pos), tokens_from(text, pos).tokens),
        separates(gaps_from(text, pos), tokens_from(text, pos).tokens),
        compose(words_from(text, pos), gaps_from(text, pos)) == text.subrange(
            pos,
            text.len() as int,
        ),
        gaps_from(text, pos)[0].len() == skip_whitespace(text, pos) - pos,
        tokens_from(text, pos).tokens.len() > 0 && tokens_from(text, pos).tokens[0] is Integer
            ==> is_digit(text[skip_whitespace(text, pos)]),
    decreases text.len() - pos,
{
    let tokens = tokens_from(text, pos).tokens;
    let words = words_from(text, pos);
    let gaps = gaps_from(text, pos);
    let start = skip_whitespace(text, pos);
    lemma_skip_whitespace(text, pos);
    lemma_scan_advances(text, pos);
    match scan(text, pos).0 {
        Ok(Token::EndOfInput) => {
            assert forall|k: int| 0 <= k < gaps[0].len() implies is_whitespace(
                #[trigger] gaps[0][k],
            ) by {
                assert(gaps[0][k] == text[pos + k]);
            }
        },
        Ok(token) => {
            let next = scan(text, pos).1;
            let gap = text.subrange(pos, start);
            let word = text.subrange(start, next);
            let later = tokens_from(text, next).tokens;
            let later_words = words_from(text, next);
            let later_gaps = gaps_from(text, next);
            lemma_first_word(text, pos);
            lemma_words_and_gaps_from(text, next);
            assert(tokens == seq![token] + later);
            assert(words == seq![word] + later_words);
            assert(gaps == seq![gap] + later_gaps);
            assert forall|i: int| 0 <= i < words.len() implies spells(
                #[trigger] words[i],
                tokens[i],
            ) by {
                if i > 0 {
                    assert(words[i] == later_words[i - 1]);
                    assert(tokens[i] == later[i - 1]);
                }
            }
            assert forall|i: int| 0 <= i < gaps.len() implies is_gap(#[trigger] gaps[i]) by {
                if i > 0 {
                    assert(gaps[i] == later_gaps[i - 1]);
                }
            }
            assert forall|i: int|
                0 < i < tokens.len() && tokens[i - 1] is Integer && tokens[i] is Integer implies (
            #[trigger] gaps[i]).len() > 0 by {
                assert(gaps[i] == later_gaps[i - 1]);
                assert(tokens[i] == later[i - 1]);
                if i > 1 {
                    assert(tokens[i - 1] == later[i - 2]);
                }
            }
            lemma_compose_behind(word, later_words, gap, later_gaps, 0);
            assert(compose(words, gaps) =~= gap + word + compose(later_words, later_gaps));
            assert(gap + word + text.subrange(next, text.len() as int) =~= text.subrange(
                pos,
                text.len() as int,
            ));
        },
        Err(_) => {},
    }
}

/// Every text that the lexer reads to its end is words with gaps around
/// them: its own words, which write its tokens, and its own gaps.
pub proof fn lemma_text_is_words_and_gaps(text: Seq<char>)
    requires
        tokens_from(text, 0).end is None,
    ensures
        written(words_from(text, 0), tokens_from(text, 0).tokens),
        separates(gaps_from(text, 0), tokens_from(text, 0).tokens),
        compose(words_from(text, 0), gaps_from(text, 0)) == text,
{
    lemma_words_and_gaps_from(text, 0);
    assert(text.subrange(0, text.len() as int) =~= text);
}

} // verus!
