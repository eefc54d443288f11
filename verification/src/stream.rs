//! The tokens that a text still holds, as the evaluator sees them: one at a
//! time, up to the end of the input or to the first failure of the lexer.

use crate::error::CalcError;
use crate::scan::{lemma_scan_advances, lemma_scan_at_end, scan};
use crate::token::Token;
use vstd::prelude::*;

verus! {

/// The tokens that are still to come, and how they end.
///
/// `tokens` never holds `EndOfInput`. After the last of them the lexer fails
/// with `end`, if there is one, and the evaluator with it; else it reports
/// `EndOfInput`, again and again.
pub struct TokenStream {
    pub tokens: Seq<Token>,
    pub end: Option<CalcError>,
}

impl TokenStream {
    /// The stream of an exhausted text.
    pub open spec fn empty() -> TokenStream {
        TokenStream { tokens: Seq::empty(), end: None }
    }

    /// What a reader of the stream gets first.
    pub open spec fn first(self) -> Result<Token, CalcError> {
        if self.tokens.len() > 0 {
            Ok(self.tokens[0])
        } else {
            match self.end {
                Some(e) => Err(e),
                None => Ok(Token::EndOfInput),
            }
        }
    }

    /// The stream behind its first token.
    pub open spec fn rest(self) -> TokenStream {
        if self.tokens.len() > 0 {
            TokenStream { tokens: self.tokens.drop_first(), end: self.end }
        } else {
            self
        }
    }

    /// No token of the stream is `EndOfInput`.
    pub open spec fn proper(self) -> bool {
        forall|k: int| 0 <= k < self.tokens.len() ==> !((#[trigger] self.tokens[k]) is EndOfInput)
    }

    /// The stream with `token` put in front of it; `EndOfInput` stands for the
    /// exhausted text.
    pub open spec fn prepend(self, token: Token) -> TokenStream {
        if token is EndOfInput {
            TokenStream::empty()
        } else {
            TokenStream { tokens: seq![token] + self.tokens, end: self.end }
        }
    }
}

/// The stream that a lexer yields from `pos` of `text`.
pub open spec fn tokens_from(text: Seq<char>, pos: int) -> TokenStream
    decreases text.len() - pos,
{
    if 0 <= pos <= text.len() {
        match scan(text, pos).0 {
            Ok(Token::EndOfInput) => TokenStream::empty(),
            Ok(token) => {
                proof {
                    lemma_scan_advances(text, pos);
                }
                tokens_from(text, scan(text, pos).1).prepend(token)
            },
            Err(e) => TokenStream { tokens: Seq::empty(), end: Some(e) },
        }
    } else {
        TokenStream::empty()
    }
}

/// A stream from a text holds no `EndOfInput`.
pub proof fn lemma_tokens_from_proper(text: Seq<char>, pos: int)
    ensures
        tokens_from(text, pos).proper(),
    decreases text.len() - pos,
{
    if 0 <= pos <= text.len() {
        match scan(text, pos).0 {
            Ok(Token::EndOfInput) => {},
            Ok(token) => {
                lemma_scan_advances(text, pos);
                lemma_tokens_from_proper(text, scan(text, pos).1);
            },
            Err(e) => {},
        }
    }
}

/// Reading a token takes the first of the stream and leaves the rest.
pub proof fn lemma_tokens_from_step(text: Seq<char>, pos: int)
    requires
        0 <= pos <= text.len(),
    ensures
        tokens_from(text, pos).first() == scan(text, pos).0,
        scan(text, pos).0 is Ok ==> tokens_from(text, scan(text, pos).1) == tokens_from(
            text,
            pos,
        ).rest(),
{
    lemma_scan_advances(text, pos);
    match scan(text, pos).0 {
        Ok(Token::EndOfInput) => {
            lemma_scan_at_end(text);
        },
        Ok(token) => {
            let after = tokens_from(text, scan(text, pos).1);
            assert(after.prepend(token).tokens.drop_first() == after.tokens);
        },
        Err(e) => {},
    }
}

} // verus!
