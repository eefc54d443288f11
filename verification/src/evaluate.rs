//! One line in, one value out.

use crate::error::CalcError;
use crate::grammar::parse_expr;
use crate::interpreter::Interpreter;
use crate::lexer::Lexer;
use crate::stream::tokens_from;
use vstd::prelude::*;

verus! {

/// The value of a line: that of the expression at its start. The first token
/// has to be there before any rule runs; what follows the expression is not
/// read beyond the one token of lookahead, and does not count.
pub open spec fn line_value(line: Seq<char>) -> Result<i64, CalcError> {
    match tokens_from(line, 0).first() {
        Ok(_) => match parse_expr(tokens_from(line, 0)) {
            Ok((v, _)) => Ok(v),
            Err(e) => Err(e),
        },
        Err(e) => Err(e),
    }
}

/// Evaluates `line` with a lexer and an interpreter of its own. The result
/// depends on the characters of the line and on nothing else.
pub fn evaluate(line: String) -> (r: Result<i64, CalcError>)
    ensures
        r == line_value(line@),
{
    let mut lexer = Lexer::create_lexer(line);
    let mut interpreter = match Interpreter::create_interpreter(&mut lexer) {
        Ok(interpreter) => interpreter,
        Err(e) => { return Err(e); },
    };
    interpreter.expr()
}

} // verus!
