//! Tokens written out as text, and read back.

use crate::chars::{digit_value, is_digit, is_whitespace};
use crate::error::CalcError;
use crate::scan::{
    decimal_value, digits_end, lemma_decimal_value_nonnegative, literal_value, operator, scan,
    skip_whitespace,
};
use crate::stream::{tokens_from, TokenStream};
use crate::token::Token;
use vstd::prelude::*;

verus! {

/// The digit that stands for `d`, for `d` from 0 to 9.
pub open spec fn digit_char(d: int) -> char {
    if d == 0 {
        '0'
    } else if d == 1 {
        '1'
    } else if d == 2 {
        '2'
    } else if d == 3 {
        '3'
    } else if d == 4 {
        '4'
    } else if d == 5 {
        '5'
    } else if d == 6 {
        '6'
    } else if d == 7 {
        '7'
    } else if d == 8 {
        '8'
    } else {
        '9'
    }
}

/// The digits of `n` in base ten, without leading zeros; `n` is not negative.
pub open spec fn decimal(n: int) -> Seq<char>
    decreases n,
{
    if n < 10 {
        seq![digit_char(n)]
    } else {
        decimal(n / 10).push(digit_char(n % 10))
    }
}

/// How a token is written.
pub open spec fn spelling(token: Token) -> Seq<char> {
    match token {
        Token::Integer(v) => decimal(v as int),
        Token::Plus => seq!['+'],
        Token::Minus => seq!['-'],
        Token::Mul => seq!['*'],
        Token::Div => seq!['/'],
        Token::LeftParen => seq!['('],
        Token::RightParen => seq![')'],
        Token::EndOfInput => Seq::empty(),
    }
}

/// Tokens that can be written: no number is negative, and none is the end of
/// the input.
pub open spec fn spellable(tokens: Seq<Token>) -> bool {
    forall|i: int|
        0 <= i < tokens.len() ==> match #[trigger] tokens[i] {
            Token::Integer(v) => v >= 0,
            Token::EndOfInput => false,
            _ => true,
        }
}

/// Nothing but whitespace.
pub open spec fn is_gap(gap: Seq<char>) -> bool {
    forall|k: int| 0 <= k < gap.len() ==> is_whitespace(#[trigger] gap[k])
}

/// `gaps` can stand around `tokens`: one gap before each token and one behind
/// the last, each of whitespace alone, and not empty between two numbers.
pub open spec fn separates(gaps: Seq<Seq<char>>, tokens: Seq<Token>) -> bool {
    &&& gaps.len() == tokens.len() + 1
    &&& forall|i: int| 0 <= i < gaps.len() ==> is_gap(#[trigger] gaps[i])
    &&& forall|i: int|
        0 < i < tokens.len() && tokens[i - 1] is Integer && tokens[i] is Integer ==> (
        #[trigger] gaps[i]).len() > 0
}

/// `word` is a way to write `token`: for a number, digits that denote it, with
/// or without zeros in front; for another token the one character that spells
/// it. The end of the input is not written.
pub open spec fn spells(word: Seq<char>, token: Token) -> bool {
    match token {
        Token::Integer(v) => {
            &&& word.len() > 0
            &&& forall|k: int| 0 <= k < word.len() ==> is_digit(#[trigger] word[k])
            &&& decimal_value(word) == v
        },
        Token::EndOfInput => false,
        _ => word == spelling(token),
    }
}

/// `words` are a way to write `tokens`, word by word.
pub open spec fn written(words: Seq<Seq<char>>, tokens: Seq<Token>) -> bool {
    &&& words.len() == tokens.len()
    &&& forall|i: int| 0 <= i < words.len() ==> spells(#[trigger] words[i], tokens[i])
}

/// The text of the words from index `from` on, each behind its gap, and the
/// last gap.
pub open spec fn compose_from(words: Seq<Seq<char>>, gaps: Seq<Seq<char>>, from: int) -> Seq<char>
    decreases words.len() - from,
{
    if 0 <= from < words.len() {
        gaps[from] + words[from] + compose_from(words, gaps, from + 1)
    } else {
        gaps[words.len() as int]
    }
}

/// The text of `words` with `gaps` around them.
pub open spec fn compose(words: Seq<Seq<char>>, gaps: Seq<Seq<char>>) -> Seq<char> {
    compose_from(words, gaps, 0)
}

/// How each of `tokens` is written without zeros in front.
pub open spec fn spellings(tokens: Seq<Token>) -> Seq<Seq<char>> {
    Seq::new(tokens.len(), |i: int| spelling(tokens[i]))
}

/// The text of `tokens`, each written without zeros in front, with `gaps`
/// around them.
pub open spec fn spell(tokens: Seq<Token>, gaps: Seq<Seq<char>>) -> Seq<char> {
    compose(spellings(tokens), gaps)
}

/// The digits of a number denote it.
pub proof fn lemma_decimal(n: int)
    requires
        0 <= n,
    ensures
        decimal(n).len() > 0,
        forall|k: int| 0 <= k < decimal(n).len() ==> is_digit(#[trigger] decimal(n)[k]),
        decimal_value(decimal(n)) == n,
    decreases n,
{
    if n < 10 {
        assert(decimal(n).drop_last() =~= Seq::<char>::empty());
        assert(decimal_value(decimal(n).drop_last()) == 0);
        assert(digit_value(digit_char(n)) == n);
    } else {
        lemma_decimal(n / 10);
        assert(decimal(n).drop_last() =~= decimal(n / 10));
        assert(digit_value(digit_char(n % 10)) == n % 10);
    }
}

/// A run of whitespace that ends at a character of another kind, or at the
/// end of the text, is what `skip_whitespace` passes.
pub proof fn lemma_skip_whitespace_to(text: Seq<char>, from: int, to: int)
    requires
        0 <= from <= to <= text.len(),
        forall|k: int| from <= k < to ==> is_whitespace(#[trigger] text[k]),
        to < text.len() ==> !is_whitespace(text[to]),
    ensures
        skip_whitespace(text, from) == to,
    decreases to - from,
{
    if from < to {
        lemma_skip_whitespace_to(text, from + 1, to);
    }
}

/// A run of digits that ends at a character of another kind, or at the end
/// of the text, is what `digits_end` passes.
pub proof fn lemma_digits_end_at(text: Seq<char>, from: int, to: int)
    requires
        0 <= from <= to <= text.len(),
        forall|k: int| from <= k < to ==> is_digit(#[trigger] text[k]),
        to < text.len() ==> !is_digit(text[to]),
    ensures
        digits_end(text, from) == to,
    decreases to - from,
{
    if from < to {
        lemma_digits_end_at(text, from + 1, to);
    }
}

/// A token is written by its spelling.
pub proof fn lemma_spelling(token: Token)
    requires
        !(token is EndOfInput),
        token matches Token::Integer(v) ==> v >= 0,
    ensures
        spells(spelling(token), token),
{
    if let Token::Integer(v) = token {
        lemma_decimal(v as int);
    }
}

/// Tokens that can be written are written by their spellings.
pub proof fn lemma_spellings(tokens: Seq<Token>)
    requires
        spellable(tokens),
    ensures
        written(spellings(tokens), tokens),
{
    assert forall|i: int| 0 <= i < tokens.len() implies spells(
        #[trigger] spellings(tokens)[i],
        tokens[i],
    ) by {
        lemma_spelling(tokens[i]);
    }
}

/// How a word starts and what it is made of: a token other than a number is
/// one character that spells it; a number is digits, and is not negative.
pub proof fn lemma_word(word: Seq<char>, token: Token)
    requires
        spells(word, token),
    ensures
        word.len() > 0,
        !is_whitespace(word[0]),
        match token {
            Token::Integer(v) => {
                &&& forall|k: int| 0 <= k < word.len() ==> is_digit(#[trigger] word[k])
                &&& literal_value(word) == Ok::<i64, CalcError>(v)
                &&& v >= 0
            },
            _ => {
                &&& word.len() == 1
                &&& !is_digit(word[0])
                &&& operator(word[0]) == Some(token)
            },
        },
{
    if token is Integer {
        lemma_decimal_value_nonnegative(word);
        assert(is_digit(word[0]));
    }
}

/// Reading a word: where `text` holds, from `at`, the whitespace `gap` and
/// then `word`, which writes `token`, and no digit follows a number, the
/// lexer reads `token` from `at` and stops behind the word.
pub proof fn lemma_scan_word(
    text: Seq<char>,
    at: int,
    gap: Seq<char>,
    word: Seq<char>,
    token: Token,
)
    requires
        0 <= at,
        at + gap.len() + word.len() <= text.len(),
        is_gap(gap),
        spells(word, token),
        text.subrange(at, at + gap.len()) == gap,
        text.subrange(at + gap.len(), at + gap.len() + word.len()) == word,
        token is Integer && at + gap.len() + word.len() < text.len() ==> !is_digit(
            text[at + gap.len() + word.len()],
        ),
    ensures
        scan(text, at) == (Ok::<Token, CalcError>(token), at + gap.len() + word.len()),
{
    let start = at + gap.len();
    let end = start + word.len();
    lemma_word(word, token);
    assert forall|k: int| at <= k < start implies is_whitespace(#[trigger] text[k]) by {
        assert(text[k] == text.subrange(at, start)[k - at]);
    }
    assert forall|k: int| start <= k < end implies text[k] == word[k - start] by {
        assert(text[k] == text.subrange(start, end)[k - start]);
    }
    assert(text[start] == word[0]);
    lemma_skip_whitespace_to(text, at, start);
    if token is Integer {
        assert forall|k: int| start <= k < end implies is_digit(#[trigger] text[k]) by {
            assert(text[k] == word[k - start]);
        }
        lemma_digits_end_at(text, start, end);
    }
}

/// A text of words starts with a digit only where it starts with a number,
/// with no gap before it.
pub proof fn lemma_compose_from_starts(
    words: Seq<Seq<char>>,
    tokens: Seq<Token>,
    gaps: Seq<Seq<char>>,
    from: int,
)
    requires
        written(words, tokens),
        separates(gaps, tokens),
        0 <= from <= tokens.len(),
    ensures
        compose_from(words, gaps, from).len() > 0 && is_digit(compose_from(words, gaps, from)[0])
            ==> from < tokens.len() && tokens[from] is Integer && gaps[from].len() == 0,
{
    let text = compose_from(words, gaps, from);
    assert(is_gap(gaps[from]));
    if gaps[from].len() > 0 {
        assert(text[0] == gaps[from][0]);
    } else if from < tokens.len() {
        lemma_word(words[from], tokens[from]);
        assert(text[0] == words[from][0]);
    }
}

/// Reading back what was written, from anywhere in a text: behind `before`,
/// the text of the words from `from` on reads as their tokens and no more.
proof fn lemma_tokens_of_compose_from(
    words: Seq<Seq<char>>,
    tokens: Seq<Token>,
    gaps: Seq<Seq<char>>,
    before: Seq<char>,
    from: int,
)
    requires
        written(words, tokens),
        separates(gaps, tokens),
        0 <= from <= tokens.len(),
    ensures
        tokens_from(before + compose_from(words, gaps, from), before.len() as int) == (
        TokenStream { tokens: tokens.skip(from), end: None }),
    decreases tokens.len() - from,
{
    let text = before + compose_from(words, gaps, from);
    let at = before.len() as int;
    let gap = gaps[from];
    assert(is_gap(gap));
    if from == tokens.len() {
        assert forall|k: int| at <= k < text.len() implies is_whitespace(#[trigger] text[k]) by {
            assert(text[k] == gap[k - at]);
        }
        lemma_skip_whitespace_to(text, at, text.len() as int);
        assert(tokens.skip(from) =~= Seq::<Token>::empty());
    } else {
        let token = tokens[from];
        let word = words[from];
        let tail = compose_from(words, gaps, from + 1);
        let end = at + gap.len() + word.len();
        assert(spells(word, token));
        assert(text =~= before + gap + word + tail);
        assert(text.subrange(at, at + gap.len()) =~= gap);
        assert(text.subrange(at + gap.len(), end) =~= word);
        if token is Integer && end < text.len() {
            lemma_compose_from_starts(words, tokens, gaps, from + 1);
            assert(text[end] == tail[0]);
        }
        lemma_scan_word(text, at, gap, word, token);
        lemma_tokens_of_compose_from(words, tokens, gaps, before + gap + word, from + 1);
        assert(text =~= (before + gap + word) + tail);
        assert(tokens.skip(from) =~= seq![token] + tokens.skip(from + 1));
    }
}

/// Reading back what was written: the text of words that write `tokens`,
/// whatever whitespace stands around them, reads as `tokens` and no more.
pub proof fn lemma_tokens_of_composition(
    words: Seq<Seq<char>>,
    tokens: Seq<Token>,
    gaps: Seq<Seq<char>>,
)
    requires
        written(words, tokens),
        separates(gaps, tokens),
    ensures
        tokens_from(compose(words, gaps), 0) == (TokenStream { tokens, end: None }),
{
    lemma_tokens_of_compose_from(words, tokens, gaps, Seq::empty(), 0);
    assert(Seq::<char>::empty() + compose(words, gaps) =~= compose(words, gaps));
    assert(tokens.skip(0) =~= tokens);
}

/// Reading back tokens in their own spelling: the text of `tokens`, whatever
/// whitespace stands around them, reads as `tokens` and no more.
pub proof fn lemma_tokens_of_spelling(tokens: Seq<Token>, gaps: Seq<Seq<char>>)
    requires
        spellable(tokens),
        separates(gaps, tokens),
    ensures
        tokens_from(spell(tokens, gaps), 0) == (TokenStream { tokens, end: None }),
{
    lemma_spellings(tokens);
    lemma_tokens_of_composition(spellings(tokens), tokens, gaps);
}

} // verus!
