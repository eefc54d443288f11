//! The evaluator: recursive descent over the tokens of a lexer, computing the
//! value of each rule as it recognises it.

use crate::arith::Operator;
use crate::error::{CalcError, Expected};
use crate::grammar::{
    lemma_rules_consume, parse_expr, parse_expr_rest, parse_factor, parse_term, parse_term_rest,
    requests_expr, requests_expr_rest, requests_factor, requests_term, requests_term_rest, shift,
};
use crate::lexer::Lexer;
use crate::scan::{
    after_steps, lemma_after_steps_add, lemma_scan_advances, lemma_scan_at_end, scan,
};
use crate::stream::{lemma_tokens_from_step, tokens_from, TokenStream};
use crate::token::Token;
use vstd::prelude::*;

verus! {

/// A lexer and the one token read ahead of the rules.
pub struct Interpreter<'a> {
    lexer: &'a mut Lexer,
    current_token: Token,
}

impl<'a> View for Interpreter<'a> {
    type V = TokenStream;

    /// The tokens that no rule has taken yet: the lookahead, then what the
    /// lexer still holds behind its cursor.
    open spec fn view(&self) -> TokenStream {
        tokens_from(self.text(), self.cursor()).prepend(self.lookahead())
    }
}

impl<'a> Interpreter<'a> {
    /// The line that is being evaluated.
    pub closed spec fn text(&self) -> Seq<char> {
        self.lexer.text()
    }

    /// Where the cursor of the lexer stands: behind the lookahead.
    pub closed spec fn cursor(&self) -> int {
        self.lexer.pos()
    }

    /// The token read ahead.
    pub closed spec fn lookahead(&self) -> Token {
        self.current_token
    }

    /// The lexer is well formed, and it is exhausted where the lookahead says
    /// so.
    pub closed spec fn wf(&self) -> bool {
        &&& self.lexer.wf()
        &&& self.current_token is EndOfInput ==> self.lexer.pos() == self.lexer.text().len()
    }

    /// The cursor and the lookahead after `count` more requests to the lexer.
    pub open spec fn after(&self, count: nat) -> (int, Token) {
        after_steps(self.text(), self.cursor(), self.lookahead(), count)
    }

    /// The lookahead is the first token of the view.
    pub proof fn lemma_lookahead(&self)
        ensures
            self@.first() == Ok::<Token, CalcError>(self.lookahead()),
    {
    }

    /// The cursor of a well-formed interpreter is within the text or at its
    /// end, and at its end where the lookahead is the end of the input.
    pub proof fn lemma_cursor_in_text(&self)
        requires
            self.wf(),
        ensures
            0 <= self.cursor() <= self.text().len(),
            self.lookahead() is EndOfInput ==> self.cursor() == self.text().len(),
    {
        self.lexer.lemma_pos_in_text();
    }

    /// One request moves the cursor as one step of the lexer does, and the
    /// lookahead to the token read, if one was read.
    pub proof fn lemma_after_one(&self)
        ensures
            self.after(1) == (
                scan(self.text(), self.cursor()).1,
                match scan(self.text(), self.cursor()).0 {
                    Ok(token) => token,
                    Err(_) => self.lookahead(),
                },
            ),
            self.after(0) == (self.cursor(), self.lookahead()),
    {
        reveal_with_fuel(after_steps, 2);
    }

    /// Reads the first token of `lexer` as lookahead, and no more; from then
    /// on the lexer is driven by the interpreter alone, for as long as the
    /// interpreter lives. Fails where the lexer does, and then leaves the
    /// lexer as that failure left it.
    pub fn create_interpreter(lexer: &'a mut Lexer) -> (r: Result<Interpreter<'a>, CalcError>)
        requires
            old(lexer).wf(),
        ensures
            match scan(old(lexer).text(), old(lexer).pos()).0 {
                Ok(token) => r matches Ok(interpreter) && interpreter.wf() && interpreter.text()
                    == old(lexer).text() && interpreter.lookahead() == token
                    && interpreter.cursor() == scan(old(lexer).text(), old(lexer).pos()).1
                    && interpreter@ == old(lexer).remaining(),
                Err(e) => r matches Err(x) && x == e && final(lexer).wf() && final(lexer).text()
                    == old(lexer).text() && final(lexer).pos() == scan(
                    old(lexer).text(),
                    old(lexer).pos(),
                ).1,
            },
    {
        proof {
            lexer.lemma_pos_in_text();
            lemma_tokens_from_step(lexer.text(), lexer.pos());
            lemma_scan_advances(lexer.text(), lexer.pos());
        }
        match lexer.get_next_token() {
            Ok(token) => Ok(Interpreter { lexer, current_token: token }),
            Err(e) => Err(e),
        }
    }

    /// Moves the lookahead to the next token: asks the lexer for one token,
    /// and keeps it. Where the lexer fails, the lookahead stays, and the
    /// cursor is where that failure left it.
    pub fn eat(&mut self) -> (r: Result<(), CalcError>)
        requires
            old(self).wf(),
        ensures
            final(self).wf(),
            final(self).text() == old(self).text(),
            final(self).cursor() == scan(old(self).text(), old(self).cursor()).1,
            match scan(old(self).text(), old(self).cursor()).0 {
                Ok(token) => r is Ok && final(self).lookahead() == token,
                Err(e) => r == Err::<(), CalcError>(e)
                    && final(self).lookahead() == old(self).lookahead(),
            },
            match shift(old(self)@) {
                Ok(rest) => r is Ok && final(self)@ == rest,
                Err(e) => r == Err::<(), CalcError>(e),
            },
            (final(self).cursor(), final(self).lookahead()) == old(self).after(1),
    {
        proof {
            let text = self.lexer.text();
            let pos = self.lexer.pos();
            self.lexer.lemma_pos_in_text();
            self.lemma_after_one();
            lemma_tokens_from_step(text, pos);
            lemma_scan_advances(text, pos);
            lemma_scan_at_end(text);
            if !(self.current_token is EndOfInput) {
                assert(self@.tokens.drop_first() == tokens_from(text, pos).tokens);
            }
        }
        match self.lexer.get_next_token() {
            Ok(token) => {
                self.current_token = token;
                Ok(())
            },
            Err(e) => Err(e),
        }
    }

    /// `factor = INTEGER | "(" expr ")"`: the value of the factor that starts
    /// at the lookahead. The lexer is asked for a token behind each token
    /// that the rule takes, and for no other.
    pub fn factor(&mut self) -> (r: Result<i64, CalcError>)
        requires
            old(self).wf(),
        ensures
            final(self).wf(),
            final(self).text() == old(self).text(),
            match parse_factor(old(self)@) {
                Ok((v, rest)) => r == Ok::<i64, CalcError>(v) && final(self)@ == rest,
                Err(e) => r == Err::<i64, CalcError>(e),
            },
            (final(self).cursor(), final(self).lookahead()) == old(self).after(
                requests_factor(old(self)@),
            ),
        decreases old(self)@.tokens.len(), 0int,
    {
        let ghost start = *self;
        proof {
            self.lemma_lookahead();
            self.lemma_after_one();
        }
        match self.current_token {
            Token::Integer(v) => {
                match self.eat() {
                    Ok(()) => Ok(v),
                    Err(e) => Err(e),
                }
            },
            Token::LeftParen => {
                if let Err(e) = self.eat() {
                    return Err(e);
                }
                let ghost inner = *self;
                let outcome = self.expr();
                proof {
                    start.lemma_steps_add(1, requests_expr(inner@), inner);
                }
                let v = match outcome {
                    Ok(v) => v,
                    Err(e) => {
                        return Err(e);
                    },
                };
                let ghost closing = *self;
                proof {
                    self.lemma_lookahead();
                    self.lemma_after_one();
                }
                match self.current_token {
                    Token::RightParen => {
                        let closed = self.eat();
                        proof {
                            start.lemma_steps_add(1 + requests_expr(inner@), 1, closing);
                        }
                        match closed {
                            Ok(()) => Ok(v),
                            Err(e) => Err(e),
                        }
                    },
                    found => Err(CalcError::SyntaxError { expected: Expected::RightParen, found }),
                }
            },
            found => Err(CalcError::SyntaxError { expected: Expected::Factor, found }),
        }
    }

    /// `term = factor { ("*" | "/") factor }`: the value of the term that
    /// starts at the lookahead, its operators applied from left to right. The
    /// lexer is asked for a token behind each token that the rule takes, and
    /// for no other.
    pub fn term(&mut self) -> (r: Result<i64, CalcError>)
        requires
            old(self).wf(),
        ensures
            final(self).wf(),
            final(self).text() == old(self).text(),
            match parse_term(old(self)@) {
                Ok((v, rest)) => r == Ok::<i64, CalcError>(v) && final(self)@ == rest,
                Err(e) => r == Err::<i64, CalcError>(e),
            },
            (final(self).cursor(), final(self).lookahead()) == old(self).after(
                requests_term(old(self)@),
            ),
        decreases old(self)@.tokens.len(), 2int,
    {
        let ghost start = *self;
        proof {
            self.lemma_lookahead();
            lemma_rules_consume(self@);
        }
        let mut result = match self.factor() {
            Ok(v) => v,
            Err(e) => {
                return Err(e);
            },
        };
        let ghost done: nat = requests_factor(start@);
        loop
            invariant
                self.wf(),
                start == *old(self),
                self.text() == start.text(),
                self@.tokens.len() <= start@.tokens.len(),
                parse_term(start@) == parse_term_rest(result, self@),
                requests_term(start@) == done + requests_term_rest(result, self@),
                (self.cursor(), self.lookahead()) == start.after(done),
            decreases self@.tokens.len(),
        {
            let ghost before = *self;
            proof {
                self.lemma_lookahead();
                self.lemma_after_one();
            }
            let op = match self.current_token {
                Token::Mul => Operator::Mul,
                Token::Div => Operator::Div,
                _ => {
                    return Ok(result);
                },
            };
            let moved = self.eat();
            proof {
                start.lemma_steps_add(done, 1, before);
            }
            if let Err(e) = moved {
                return Err(e);
            }
            let ghost operand_at = *self;
            proof {
                self.lemma_lookahead();
                lemma_rules_consume(self@);
            }
            let outcome = self.factor();
            proof {
                start.lemma_steps_add(done + 1, requests_factor(operand_at@), operand_at);
                done = done + 1 + requests_factor(operand_at@);
            }
            let operand = match outcome {
                Ok(v) => v,
                Err(e) => {
                    return Err(e);
                },
            };
            result = match op.eval(result, operand) {
                Ok(v) => v,
                Err(e) => {
                    return Err(e);
                },
            };
        }
    }

    /// `expr = term { ("+" | "-") term }`: the value of the expression that
    /// starts at the lookahead, its operators applied from left to right. What
    /// follows the expression is left unread but for the lookahead. The lexer
    /// is asked for a token behind each token that the rule takes, and for no
    /// other.
    pub fn expr(&mut self) -> (r: Result<i64, CalcError>)
        requires
            old(self).wf(),
        ensures
            final(self).wf(),
            final(self).text() == old(self).text(),
            match parse_expr(old(self)@) {
                Ok((v, rest)) => r == Ok::<i64, CalcError>(v) && final(self)@ == rest,
                Err(e) => r == Err::<i64, CalcError>(e),
            },
            (final(self).cursor(), final(self).lookahead()) == old(self).after(
                requests_expr(old(self)@),
            ),
        decreases old(self)@.tokens.len(), 4int,
    {
        let ghost start = *self;
        proof {
            self.lemma_lookahead();
            lemma_rules_consume(self@);
        }
        let mut result = match self.term() {
            Ok(v) => v,
            Err(e) => {
                return Err(e);
            },
        };
        let ghost done: nat = requests_term(start@);
        loop
            invariant
                self.wf(),
                start == *old(self),
                self.text() == start.text(),
                self@.tokens.len() <= start@.tokens.len(),
                parse_expr(start@) == parse_expr_rest(result, self@),
                requests_expr(start@) == done + requests_expr_rest(result, self@),
                (self.cursor(), self.lookahead()) == start.after(done),
            decreases self@.tokens.len(),
        {
            let ghost before = *self;
            proof {
                self.lemma_lookahead();
                self.lemma_after_one();
            }
            let op = match self.current_token {
                Token::Plus => Operator::Add,
                Token::Minus => Operator::Sub,
                _ => {
                    return Ok(result);
                },
            };
            let moved = self.eat();
            proof {
                start.lemma_steps_add(done, 1, before);
            }
            if let Err(e) = moved {
                return Err(e);
            }
            let ghost operand_at = *self;
            proof {
                self.lemma_lookahead();
                lemma_rules_consume(self@);
            }
            let outcome = self.term();
            proof {
                start.lemma_steps_add(done + 1, requests_term(operand_at@), operand_at);
                done = done + 1 + requests_term(operand_at@);
            }
            let operand = match outcome {
                Ok(v) => v,
                Err(e) => {
                    return Err(e);
                },
            };
            result = match op.eval(result, operand) {
                Ok(v) => v,
                Err(e) => {
                    return Err(e);
                },
            };
        }
    }

    /// Requests add up: where `middle` is this interpreter after `first`
    /// requests, `second` requests from `middle` are `first + second` from
    /// here.
    pub proof fn lemma_steps_add(&self, first: nat, second: nat, middle: Interpreter<'a>)
        requires
            middle.text() == self.text(),
            (middle.cursor(), middle.lookahead()) == self.after(first),
        ensures
            middle.after(second) == self.after(first + second),
    {
        lemma_after_steps_add(self.text(), self.cursor(), self.lookahead(), first, second);
    }
}

} // verus!
