use calculator::arith::Operator;
use calculator::error::{CalcError, Expected};
use calculator::interpreter::Interpreter;
use calculator::lexer::Lexer;
use calculator::token::Token;

#[test]
fn create_interpreter_reads_the_first_token() {
    let mut lexer = Lexer::create_lexer("7 8".to_string());
    {
        let interpreter = Interpreter::create_interpreter(&mut lexer);
        assert!(interpreter.is_ok());
    }
    assert_eq!(lexer.get_next_token(), Ok(Token::Integer(8)));
}

#[test]
fn create_interpreter_fails_where_the_lexer_does() {
    let mut lexer = Lexer::create_lexer(" # 1".to_string());
    match Interpreter::create_interpreter(&mut lexer) {
        Err(e) => assert_eq!(e, CalcError::InvalidCharacter { ch: '#', position: 1 }),
        Ok(_) => panic!("an interpreter on a text that starts with no token"),
    }
    let mut big = Lexer::create_lexer("99999999999999999999".to_string());
    match Interpreter::create_interpreter(&mut big) {
        Err(e) => assert_eq!(e, CalcError::IntegerOverflow),
        Ok(_) => panic!("an interpreter on a literal that does not fit"),
    }
}

#[test]
fn eat_moves_the_lookahead() {
    let mut lexer = Lexer::create_lexer("1 2 3".to_string());
    let mut interpreter = Interpreter::create_interpreter(&mut lexer).ok().unwrap();
    assert_eq!(interpreter.eat(), Ok(()));
    assert_eq!(interpreter.factor(), Ok(2));
    assert_eq!(interpreter.factor(), Ok(3));
    assert_eq!(interpreter.eat(), Ok(()));
    assert_eq!(interpreter.eat(), Ok(()));
    assert_eq!(
        interpreter.factor(),
        Err(CalcError::SyntaxError { expected: Expected::Factor, found: Token::EndOfInput })
    );
}

#[test]
fn eat_fails_where_the_lexer_does() {
    let mut lexer = Lexer::create_lexer("1 @".to_string());
    let mut interpreter = Interpreter::create_interpreter(&mut lexer).ok().unwrap();
    assert_eq!(interpreter.eat(), Err(CalcError::InvalidCharacter { ch: '@', position: 2 }));
    assert_eq!(interpreter.eat(), Err(CalcError::InvalidCharacter { ch: '@', position: 2 }));
}

#[test]
fn factor_stops_behind_one_factor() {
    let mut lexer = Lexer::create_lexer("(1 + 2) * 3".to_string());
    let mut interpreter = Interpreter::create_interpreter(&mut lexer).ok().unwrap();
    assert_eq!(interpreter.factor(), Ok(3));
    assert_eq!(
        interpreter.factor(),
        Err(CalcError::SyntaxError { expected: Expected::Factor, found: Token::Mul })
    );
}

#[test]
fn term_stops_before_an_additive_operator() {
    let mut lexer = Lexer::create_lexer("2 * 3 / 4 + 5 * 6".to_string());
    let mut interpreter = Interpreter::create_interpreter(&mut lexer).ok().unwrap();
    assert_eq!(interpreter.term(), Ok(1));
    assert_eq!(interpreter.eat(), Ok(()));
    assert_eq!(interpreter.term(), Ok(30));
}

#[test]
fn expr_stops_before_what_does_not_continue_it() {
    let mut lexer = Lexer::create_lexer("1 + 2 * 3 ) 4 - 1".to_string());
    let mut interpreter = Interpreter::create_interpreter(&mut lexer).ok().unwrap();
    assert_eq!(interpreter.expr(), Ok(7));
    assert_eq!(interpreter.eat(), Ok(()));
    assert_eq!(interpreter.expr(), Ok(3));
    assert_eq!(
        interpreter.expr(),
        Err(CalcError::SyntaxError { expected: Expected::Factor, found: Token::EndOfInput })
    );
}

#[test]
fn operators_on_their_own() {
    assert_eq!(Operator::Add.eval(2, 3), Ok(5));
    assert_eq!(Operator::Sub.eval(2, 3), Ok(-1));
    assert_eq!(Operator::Mul.eval(-2, 3), Ok(-6));
    assert_eq!(Operator::Div.eval(-7, 2), Ok(-3));
    assert_eq!(Operator::Div.eval(7, -2), Ok(-3));
    assert_eq!(Operator::Div.eval(-7, -2), Ok(3));
    assert_eq!(Operator::Div.eval(1, 0), Err(CalcError::DivisionByZero));
    assert_eq!(Operator::Div.eval(0, 0), Err(CalcError::DivisionByZero));
    assert_eq!(Operator::Div.eval(i64::MIN, -1), Err(CalcError::IntegerOverflow));
    assert_eq!(Operator::Add.eval(i64::MAX, 1), Err(CalcError::IntegerOverflow));
    assert_eq!(Operator::Sub.eval(i64::MIN, 1), Err(CalcError::IntegerOverflow));
    assert_eq!(Operator::Mul.eval(i64::MAX, 2), Err(CalcError::IntegerOverflow));
    assert_eq!(Operator::Mul.eval(i64::MIN, -1), Err(CalcError::IntegerOverflow));
}

#[test]
fn create_interpreter_reads_one_token_and_no_more() {
    let mut lexer = Lexer::create_lexer("  42 + 1".to_string());
    {
        let interpreter = Interpreter::create_interpreter(&mut lexer);
        assert!(interpreter.is_ok());
    }
    assert_eq!(lexer.integer(), Ok(0));
    lexer.advance();
    assert_eq!(lexer.get_next_token(), Ok(Token::Plus));
    assert_eq!(lexer.get_next_token(), Ok(Token::Integer(1)));
}

#[test]
fn eat_asks_for_one_token_and_no_more() {
    let mut lexer = Lexer::create_lexer("3 * 4".to_string());
    {
        let mut interpreter = Interpreter::create_interpreter(&mut lexer).ok().unwrap();
        assert_eq!(interpreter.eat(), Ok(()));
    }
    assert_eq!(lexer.integer(), Ok(0));
    lexer.advance();
    assert_eq!(lexer.integer(), Ok(4));
    assert_eq!(lexer.get_next_token(), Ok(Token::EndOfInput));
}

#[test]
fn eat_that_fails_leaves_the_cursor_where_the_lexer_did() {
    let mut lexer = Lexer::create_lexer("1  @".to_string());
    {
        let mut interpreter = Interpreter::create_interpreter(&mut lexer).ok().unwrap();
        assert_eq!(interpreter.eat(), Err(CalcError::InvalidCharacter { ch: '@', position: 3 }));
    }
    lexer.advance();
    assert_eq!(lexer.get_next_token(), Ok(Token::EndOfInput));
    let mut big = Lexer::create_lexer("1 99999999999999999999 2".to_string());
    {
        let mut interpreter = Interpreter::create_interpreter(&mut big).ok().unwrap();
        assert_eq!(interpreter.eat(), Err(CalcError::IntegerOverflow));
    }
    assert_eq!(big.integer(), Ok(0));
    big.advance();
    assert_eq!(big.integer(), Ok(2));
}

#[test]
fn rules_stop_the_cursor_behind_the_lookahead() {
    let mut lexer = Lexer::create_lexer("(1) + 2 * 3 - 4".to_string());
    {
        let mut interpreter = Interpreter::create_interpreter(&mut lexer).ok().unwrap();
        assert_eq!(interpreter.factor(), Ok(1));
    }
    assert_eq!(lexer.integer(), Ok(0));
    lexer.advance();
    assert_eq!(lexer.integer(), Ok(2));
    {
        let mut interpreter = Interpreter::create_interpreter(&mut lexer).ok().unwrap();
        assert_eq!(interpreter.eat(), Ok(()));
        assert_eq!(interpreter.term(), Ok(3));
    }
    assert_eq!(lexer.integer(), Ok(0));
    lexer.advance();
    assert_eq!(lexer.integer(), Ok(4));
    assert_eq!(lexer.get_next_token(), Ok(Token::EndOfInput));
}

#[test]
fn rules_that_fail_stop_the_cursor_behind_the_last_token_read() {
    let mut lexer = Lexer::create_lexer("(1 2 + 7".to_string());
    {
        let mut interpreter = Interpreter::create_interpreter(&mut lexer).ok().unwrap();
        assert_eq!(
            interpreter.expr(),
            Err(CalcError::SyntaxError { expected: Expected::RightParen, found: Token::Integer(2) })
        );
    }
    assert_eq!(lexer.integer(), Ok(0));
    lexer.advance();
    assert_eq!(lexer.get_next_token(), Ok(Token::Plus));
    let mut zero = Lexer::create_lexer("8 / 0 + 5".to_string());
    {
        let mut interpreter = Interpreter::create_interpreter(&mut zero).ok().unwrap();
        assert_eq!(interpreter.term(), Err(CalcError::DivisionByZero));
    }
    assert_eq!(zero.integer(), Ok(0));
    zero.advance();
    assert_eq!(zero.integer(), Ok(5));
}
