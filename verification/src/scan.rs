//! What the lexer reads at a position of a text, as mathematics on `Seq<char>`.

use crate::chars::{digit_value, is_digit, is_whitespace};
use crate::error::CalcError;
use crate::token::Token;
use vstd::prelude::*;

verus! {

/// The first index at or after `pos` that holds no whitespace, or the length of
/// the text where only whitespace is left.
pub open spec fn skip_whitespace(text: Seq<char>, pos: int) -> int
    decreases text.len() - pos,
{
    if 0 <= pos < text.len() && is_whitespace(text[pos]) {
        skip_whitespace(text, pos + 1)
    } else {
        pos
    }
}

/// The first index at or after `pos` that holds no digit: the end of the
/// longest run of digits that starts at `pos`.
pub open spec fn digits_end(text: Seq<char>, pos: int) -> int
    decreases text.len() - pos,
{
    if 0 <= pos < text.len() && is_digit(text[pos]) {
        digits_end(text, pos + 1)
    } else {
        pos
    }
}

/// The number that a run of digits denotes in base ten; the empty run denotes 0.
pub open spec fn decimal_value(digits: Seq<char>) -> int
    decreases digits.len(),
{
    if digits.len() == 0 {
        0
    } else {
        decimal_value(digits.drop_last()) * 10 + digit_value(digits.last())
    }
}

/// The value of a literal, where it fits in an `i64`.
pub open spec fn literal_value(digits: Seq<char>) -> Result<i64, CalcError> {
    if decimal_value(digits) <= i64::MAX {
        Ok(decimal_value(digits) as i64)
    } else {
        Err(CalcError::IntegerOverflow)
    }
}

/// The token that a single character spells, if any.
pub open spec fn operator(c: char) -> Option<Token> {
    if c == '+' {
        Some(Token::Plus)
    } else if c == '-' {
        Some(Token::Minus)
    } else if c == '*' {
        Some(Token::Mul)
    } else if c == '/' {
        Some(Token::Div)
    } else if c == '(' {
        Some(Token::LeftParen)
    } else if c == ')' {
        Some(Token::RightParen)
    } else {
        None
    }
}

/// One step of the lexer from `pos`: what it reports, and where its cursor
/// stands afterwards.
///
/// Whitespace is passed over. A digit starts a literal that takes the whole run
/// of digits, also where its value is too large. A character that starts no
/// token is reported and not passed.
pub open spec fn scan(text: Seq<char>, pos: int) -> (Result<Token, CalcError>, int) {
    let start = skip_whitespace(text, pos);
    if !(0 <= start < text.len()) {
        (Ok(Token::EndOfInput), start)
    } else if is_digit(text[start]) {
        let end = digits_end(text, start);
        match literal_value(text.subrange(start, end)) {
            Ok(v) => (Ok(Token::Integer(v)), end),
            Err(e) => (Err(e), end),
        }
    } else {
        match operator(text[start]) {
            Some(t) => (Ok(t), start + 1),
            None => (
                Err(CalcError::InvalidCharacter { ch: text[start], position: start as usize }),
                start,
            ),
        }
    }
}

/// `skip_whitespace` passes whitespace only, and stops at the first character
/// that is none.
pub proof fn lemma_skip_whitespace(text: Seq<char>, pos: int)
    requires
        0 <= pos <= text.len(),
    ensures
        pos <= skip_whitespace(text, pos) <= text.len(),
        forall|k: int| pos <= k < skip_whitespace(text, pos) ==> is_whitespace(#[trigger] text[k]),
        skip_whitespace(text, pos) < text.len() ==> !is_whitespace(
            text[skip_whitespace(text, pos)],
        ),
    decreases text.len() - pos,
{
    if pos < text.len() && is_whitespace(text[pos]) {
        lemma_skip_whitespace(text, pos + 1);
    }
}

/// `digits_end` passes digits only, and stops at the first character that is
/// none.
pub proof fn lemma_digits_end(text: Seq<char>, pos: int)
    requires
        0 <= pos <= text.len(),
    ensures
        pos <= digits_end(text, pos) <= text.len(),
        forall|k: int| pos <= k < digits_end(text, pos) ==> is_digit(#[trigger] text[k]),
        digits_end(text, pos) < text.len() ==> !is_digit(text[digits_end(text, pos)]),
        pos < text.len() && is_digit(text[pos]) ==> pos < digits_end(text, pos),
    decreases text.len() - pos,
{
    if pos < text.len() && is_digit(text[pos]) {
        lemma_digits_end(text, pos + 1);
    }
}

/// A run of digits denotes a number that is not negative.
pub proof fn lemma_decimal_value_nonnegative(digits: Seq<char>)
    requires
        forall|k: int| 0 <= k < digits.len() ==> is_digit(#[trigger] digits[k]),
    ensures
        0 <= decimal_value(digits),
    decreases digits.len(),
{
    if digits.len() > 0 {
        lemma_decimal_value_nonnegative(digits.drop_last());
    }
}

/// The cursor never moves backward; a token other than the end of input takes
/// at least one character; the end of input is reported at the end of the text
/// only.
pub proof fn lemma_scan_advances(text: Seq<char>, pos: int)
    requires
        0 <= pos <= text.len(),
    ensures
        pos <= scan(text, pos).1 <= text.len(),
        scan(text, pos).0 is Ok && scan(text, pos).0 != Ok::<Token, CalcError>(Token::EndOfInput)
            ==> pos < scan(text, pos).1,
        scan(text, pos).0 == Ok::<Token, CalcError>(Token::EndOfInput) ==> scan(text, pos).1
            == text.len(),
{
    lemma_skip_whitespace(text, pos);
    let start = skip_whitespace(text, pos);
    if start < text.len() && is_digit(text[start]) {
        lemma_digits_end(text, start);
    }
}

/// A literal is never negative.
pub proof fn lemma_scan_literal(text: Seq<char>, pos: int)
    requires
        0 <= pos <= text.len(),
    ensures
        scan(text, pos).0 matches Ok(Token::Integer(v)) ==> v >= 0,
{
    lemma_skip_whitespace(text, pos);
    let start = skip_whitespace(text, pos);
    if start < text.len() && is_digit(text[start]) {
        lemma_digits_end(text, start);
        let digits = text.subrange(start, digits_end(text, start));
        assert forall|k: int| 0 <= k < digits.len() implies is_digit(#[trigger] digits[k]) by {
            assert(digits[k] == text[start + k]);
        }
        lemma_decimal_value_nonnegative(digits);
    }
}

/// Once the text is exhausted, every further step reports the end of input and
/// leaves the cursor where it is.
pub proof fn lemma_scan_at_end(text: Seq<char>)
    ensures
        scan(text, text.len() as int) == (
            Ok::<Token, CalcError>(Token::EndOfInput),
            text.len() as int,
        ),
{
}

/// Where the cursor stands and which token was read last after `count`
/// steps of the lexer from `pos`: each step is one `scan` from where the step
/// before it stopped, and a step that fails leaves `last` as it was.
pub open spec fn after_steps(text: Seq<char>, pos: int, last: Token, count: nat) -> (int, Token)
    decreases count,
{
    if count == 0 {
        (pos, last)
    } else {
        after_steps(
            text,
            scan(text, pos).1,
            match scan(text, pos).0 {
                Ok(token) => token,
                Err(_) => last,
            },
            (count - 1) as nat,
        )
    }
}

/// Steps add up: `first` steps and then `second` steps are `first + second`
/// steps.
pub proof fn lemma_after_steps_add(text: Seq<char>, pos: int, last: Token, first: nat, second: nat)
    ensures
        after_steps(text, pos, last, first + second) == after_steps(
            text,
            after_steps(text, pos, last, first).0,
            after_steps(text, pos, last, first).1,
            second,
        ),
    decreases first,
{
    if first > 0 {
        lemma_after_steps_add(
            text,
            scan(text, pos).1,
            match scan(text, pos).0 {
                Ok(token) => token,
                Err(_) => last,
            },
            (first - 1) as nat,
            second,
        );
        assert(after_steps(text, pos, last, first + second) == after_steps(
            text,
            scan(text, pos).1,
            match scan(text, pos).0 {
                Ok(token) => token,
                Err(_) => last,
            },
            (first + second - 1) as nat,
        ));
    }
}

} // verus!
