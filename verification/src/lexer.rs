//! The lexer: a cursor over the characters of one line, read token by token.

use crate::chars::{is_digit, is_whitespace, to_digit};
use crate::error::CalcError;
use crate::scan::{
    decimal_value, digits_end, lemma_decimal_value_nonnegative, lemma_scan_advances,
    lemma_scan_literal, literal_value, scan, skip_whitespace,
};
use crate::stream::{tokens_from, TokenStream};
use crate::token::Token;
use vstd::prelude::*;

verus! {

/// A line of text and a cursor into it.
pub struct Lexer {
    text: Vec<char>,
    pos: usize,
    current_char: Option<char>,
}

impl Lexer {
    /// The characters of the line.
    pub closed spec fn text(&self) -> Seq<char> {
        self.text@
    }

    /// The index of the next character that has not been read.
    pub closed spec fn pos(&self) -> int {
        self.pos as int
    }

    /// The cursor is within the text or at its end, and the cached character is
    /// the one under the cursor.
    pub closed spec fn wf(&self) -> bool {
        &&& self.pos <= self.text.len()
        &&& self.current_char == if self.pos < self.text.len() {
            Some(self.text@[self.pos as int])
        } else {
            None::<char>
        }
    }

    /// The tokens that the lexer has not read yet.
    pub open spec fn remaining(&self) -> TokenStream {
        tokens_from(self.text(), self.pos())
    }

    /// A well-formed lexer has its cursor within the text or at its end.
    pub proof fn lemma_pos_in_text(&self)
        requires
            self.wf(),
        ensures
            0 <= self.pos() <= self.text().len(),
    {
    }

    /// A lexer at the start of `text`.
    pub fn create_lexer(text: String) -> (lexer: Lexer)
        ensures
            lexer.wf(),
            lexer.text() == text@,
            lexer.pos() == 0,
    {
        let mut chars: Vec<char> = Vec::new();
        for c in it: text.as_str().chars()
            invariant
                it.seq() == text@,
                chars@ == it.seq().take(it.index() as int),
        {
            chars.push(c);
        }
        let first = if chars.len() > 0 {
            Some(chars[0])
        } else {
            None
        };
        Lexer { text: chars, pos: 0, current_char: first }
    }

    /// Moves the cursor one character forward, unless it stands at the end of
    /// the text already.
    pub fn advance(&mut self)
        requires
            old(self).wf(),
        ensures
            final(self).wf(),
            final(self).text() == old(self).text(),
            final(self).pos() == if old(self).pos() < old(self).text().len() {
                old(self).pos() + 1
            } else {
                old(self).pos()
            },
    {
        if self.pos < self.text.len() {
            self.pos = self.pos + 1;
        }
        if self.pos < self.text.len() {
            self.current_char = Some(self.text[self.pos]);
        } else {
            self.current_char = None;
        }
    }

    /// Moves the cursor past the whitespace under it, if any.
    pub fn skip_whitespaces(&mut self)
        requires
            old(self).wf(),
        ensures
            final(self).wf(),
            final(self).text() == old(self).text(),
            final(self).pos() == skip_whitespace(old(self).text(), old(self).pos()),
            old(self).pos() <= final(self).pos(),
    {
        loop
            invariant
                self.wf(),
                self.text() == old(self).text(),
                old(self).pos() <= self.pos(),
                skip_whitespace(self.text(), self.pos()) == skip_whitespace(
                    old(self).text(),
                    old(self).pos(),
                ),
            ensures
                self.pos() == skip_whitespace(old(self).text(), old(self).pos()),
            decreases self.text().len() - self.pos(),
        {
            let c = match self.current_char {
                Some(c) => c,
                None => {
                    break;
                },
            };
            if !is_whitespace(c) {
                break;
            }
            self.advance();
        }
    }

    /// Reads the run of digits under the cursor, the whole of it in any case,
    /// and gives the number it denotes, or `IntegerOverflow` where that number
    /// does not fit. With no digit under the cursor the run is empty: the
    /// cursor stays and the number is 0.
    pub fn integer(&mut self) -> (r: Result<i64, CalcError>)
        requires
            old(self).wf(),
        ensures
            final(self).wf(),
            final(self).text() == old(self).text(),
            final(self).pos() == digits_end(old(self).text(), old(self).pos()),
            old(self).pos() <= final(self).pos(),
            r == literal_value(old(self).text().subrange(old(self).pos(), final(self).pos())),
            r matches Ok(v) ==> v >= 0,
    {
        let ghost start = self.pos();
        let ghost text = self.text();
        let mut value: i64 = 0;
        let mut overflow = false;
        loop
            invariant
                self.wf(),
                self.text() == text,
                start == old(self).pos(),
                text == old(self).text(),
                start <= self.pos() <= text.len(),
                digits_end(text, self.pos()) == digits_end(text, start),
                forall|k: int| start <= k < self.pos() ==> is_digit(#[trigger] text[k]),
                0 <= value,
                !overflow ==> value == decimal_value(text.subrange(start, self.pos())),
                overflow ==> decimal_value(text.subrange(start, self.pos())) > i64::MAX,
            ensures
                self.pos() == digits_end(text, start),
            decreases text.len() - self.pos(),
        {
            let c = match self.current_char {
                Some(c) => c,
                None => {
                    break;
                },
            };
            let d = match to_digit(c) {
                Some(d) => d,
                None => {
                    break;
                },
            };
            proof {
                let p = self.pos();
                let shorter = text.subrange(start, p);
                let longer = text.subrange(start, p + 1);
                assert(longer.drop_last() == shorter);
                assert(longer.last() == c);
                assert forall|k: int| 0 <= k < shorter.len() implies is_digit(
                    #[trigger] shorter[k],
                ) by {
                    assert(shorter[k] == text[start + k]);
                }
                lemma_decimal_value_nonnegative(shorter);
            }
            if !overflow {
                match value.checked_mul(10) {
                    Some(tens) => match tens.checked_add(d) {
                        Some(sum) => {
                            value = sum;
                        },
                        None => {
                            overflow = true;
                        },
                    },
                    None => {
                        overflow = true;
                    },
                }
            }
            self.advance();
        }
        if overflow {
            Err(CalcError::IntegerOverflow)
        } else {
            Ok(value)
        }
    }

    /// Reads the next token: passes whitespace, then takes a literal, an
    /// operator or a parenthesis. At the end of the text it reports
    /// `EndOfInput` and stays there. A character that starts no token is
    /// reported with its index, and the cursor stays on it.
    pub fn get_next_token(&mut self) -> (r: Result<Token, CalcError>)
        requires
            old(self).wf(),
        ensures
            final(self).wf(),
            final(self).text() == old(self).text(),
            (r, final(self).pos()) == scan(old(self).text(), old(self).pos()),
            old(self).pos() <= final(self).pos(),
            r matches Ok(Token::Integer(v)) ==> v >= 0,
            r == Ok::<Token, CalcError>(Token::EndOfInput) <==> skip_whitespace(
                old(self).text(),
                old(self).pos(),
            ) == old(self).text().len(),
            r == Ok::<Token, CalcError>(Token::EndOfInput) ==> final(self).pos()
                == old(self).text().len(),
    {
        proof {
            lemma_scan_advances(self.text(), self.pos());
            lemma_scan_literal(self.text(), self.pos());
        }
        self.skip_whitespaces();
        let c = match self.current_char {
            Some(c) => c,
            None => { return Ok(Token::EndOfInput); },
        };
        if is_digit(c) {
            return match self.integer() {
                Ok(v) => Ok(Token::Integer(v)),
                Err(e) => Err(e),
            };
        }
        let token = if c == '+' {
            Token::Plus
        } else if c == '-' {
            Token::Minus
        } else if c == '*' {
            Token::Mul
        } else if c == '/' {
            Token::Div
        } else if c == '(' {
            Token::LeftParen
        } else if c == ')' {
            Token::RightParen
        } else {
            return Err(CalcError::InvalidCharacter { ch: c, position: self.pos });
        };
        self.advance();
        Ok(token)
    }
}

} // verus!
