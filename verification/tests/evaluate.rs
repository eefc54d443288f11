use calculator::error::{CalcError, Expected};
use calculator::evaluate::evaluate;
use calculator::token::Token;

fn eval(line: &str) -> Result<i64, CalcError> {
    evaluate(line.to_string())
}

#[test]
fn division_groups_to_the_left() {
    assert_eq!(eval("8 / 4 / 2"), Ok(1));
}

#[test]
fn subtraction_groups_to_the_left() {
    assert_eq!(eval("2 - 3 - 4"), Ok(-5));
}

#[test]
fn multiplication_binds_tighter_than_addition() {
    assert_eq!(eval("2 + 3 * 4"), Ok(14));
}

#[test]
fn parentheses_override_precedence() {
    assert_eq!(eval("(2 + 3) * 4"), Ok(20));
}

#[test]
fn nested_parentheses() {
    assert_eq!(eval("7 + 3 * (10 / (12 / (3 + 1) - 1))"), Ok(22));
}

#[test]
fn whitespace_does_not_matter() {
    assert_eq!(eval("  2+ 3 "), Ok(5));
    assert_eq!(eval("2+3"), Ok(5));
    assert_eq!(eval("  2+ 3 "), eval("2+3"));
    assert_eq!(eval("\t7+3*(10/(12/(3+1)-1))\r\n"), eval("7 + 3 * (10 / (12 / (3 + 1) - 1))"));
}

#[test]
fn unicode_whitespace_separates_tokens() {
    assert_eq!(eval("2\u{a0}+\u{2003}3\u{3000}"), Ok(5));
}

#[test]
fn whitespace_inside_a_number_splits_it() {
    assert_eq!(eval("1 2"), Ok(1));
    assert_eq!(eval("12"), Ok(12));
}

#[test]
fn division_by_zero_is_an_error() {
    assert_eq!(eval("5 / 0"), Err(CalcError::DivisionByZero));
    assert_eq!(eval("5 / (3 - 3)"), Err(CalcError::DivisionByZero));
    assert_eq!(eval("0 / 5"), Ok(0));
}

#[test]
fn invalid_character_is_reported_with_its_place() {
    assert_eq!(eval("2 & 3"), Err(CalcError::InvalidCharacter { ch: '&', position: 2 }));
    assert_eq!(eval("&"), Err(CalcError::InvalidCharacter { ch: '&', position: 0 }));
    assert_eq!(eval("2 + x"), Err(CalcError::InvalidCharacter { ch: 'x', position: 4 }));
}

#[test]
fn position_counts_characters_not_bytes() {
    assert_eq!(eval("2\u{a0}+ \u{e9}"), Err(CalcError::InvalidCharacter { ch: '\u{e9}', position: 4 }));
}

#[test]
fn missing_right_parenthesis_is_a_syntax_error() {
    assert_eq!(
        eval("(2 + 3"),
        Err(CalcError::SyntaxError { expected: Expected::RightParen, found: Token::EndOfInput })
    );
    assert_eq!(
        eval("(2 + 3 4"),
        Err(CalcError::SyntaxError { expected: Expected::RightParen, found: Token::Integer(4) })
    );
    assert_eq!(
        eval("((1)"),
        Err(CalcError::SyntaxError { expected: Expected::RightParen, found: Token::EndOfInput })
    );
}

#[test]
fn tokens_behind_the_expression_are_not_read() {
    assert_eq!(eval("2 + 3)"), Ok(5));
    assert_eq!(eval("2 + 3 4"), Ok(5));
    assert_eq!(eval("2 + 3 ) &"), Ok(5));
    assert_eq!(eval("(1) (2"), Ok(1));
}

#[test]
fn the_lookahead_behind_the_expression_is_read() {
    assert_eq!(eval("2 + 3 &"), Err(CalcError::InvalidCharacter { ch: '&', position: 6 }));
    assert_eq!(eval("1 / 0 &"), Err(CalcError::InvalidCharacter { ch: '&', position: 6 }));
    assert_eq!(eval("1 99999999999999999999"), Err(CalcError::IntegerOverflow));
}

#[test]
fn missing_operand_is_a_syntax_error() {
    assert_eq!(
        eval(""),
        Err(CalcError::SyntaxError { expected: Expected::Factor, found: Token::EndOfInput })
    );
    assert_eq!(
        eval("   "),
        Err(CalcError::SyntaxError { expected: Expected::Factor, found: Token::EndOfInput })
    );
    assert_eq!(
        eval("+ 3"),
        Err(CalcError::SyntaxError { expected: Expected::Factor, found: Token::Plus })
    );
    assert_eq!(
        eval("2 * / 3"),
        Err(CalcError::SyntaxError { expected: Expected::Factor, found: Token::Div })
    );
    assert_eq!(
        eval("()"),
        Err(CalcError::SyntaxError { expected: Expected::Factor, found: Token::RightParen })
    );
    assert_eq!(
        eval("2 -"),
        Err(CalcError::SyntaxError { expected: Expected::Factor, found: Token::EndOfInput })
    );
}

#[test]
fn no_unary_minus() {
    assert_eq!(
        eval("-3"),
        Err(CalcError::SyntaxError { expected: Expected::Factor, found: Token::Minus })
    );
    assert_eq!(
        eval("2 * -3"),
        Err(CalcError::SyntaxError { expected: Expected::Factor, found: Token::Minus })
    );
}

#[test]
fn literal_too_large_is_an_overflow() {
    assert_eq!(eval("9223372036854775807"), Ok(i64::MAX));
    assert_eq!(eval("9223372036854775808"), Err(CalcError::IntegerOverflow));
    assert_eq!(eval("1 + 99999999999999999999999999999999999999999"), Err(CalcError::IntegerOverflow));
    assert_eq!(eval("000000000000000000000000000000000000000000012"), Ok(12));
}

#[test]
fn result_too_large_is_an_overflow() {
    assert_eq!(eval("9223372036854775807 + 1"), Err(CalcError::IntegerOverflow));
    assert_eq!(eval("9223372036854775807 + 0"), Ok(i64::MAX));
    assert_eq!(eval("0 - 9223372036854775807 - 1"), Ok(i64::MIN));
    assert_eq!(eval("0 - 9223372036854775807 - 2"), Err(CalcError::IntegerOverflow));
    assert_eq!(eval("4611686018427387904 * 2"), Err(CalcError::IntegerOverflow));
    assert_eq!(eval("4611686018427387904 * (0 - 2)"), Ok(i64::MIN));
    assert_eq!(eval("(0 - 9223372036854775807 - 1) / (0 - 1)"), Err(CalcError::IntegerOverflow));
    assert_eq!(eval("(0 - 9223372036854775807 - 1) / 1"), Ok(i64::MIN));
}

#[test]
fn division_rounds_toward_zero() {
    assert_eq!(eval("7 / 2"), Ok(3));
    assert_eq!(eval("(0 - 7) / 2"), Ok(-3));
    assert_eq!(eval("7 / (0 - 2)"), Ok(-3));
    assert_eq!(eval("(0 - 7) / (0 - 2)"), Ok(3));
    assert_eq!(eval("(0 - 1) / 2"), Ok(0));
}

#[test]
fn first_failure_in_reading_order_wins() {
    assert_eq!(eval("1 / 0 + 99999999999999999999"), Err(CalcError::DivisionByZero));
    assert_eq!(eval("99999999999999999999 + 1 / 0"), Err(CalcError::IntegerOverflow));
    assert_eq!(eval("(1 / 0"), Err(CalcError::DivisionByZero));
    assert_eq!(eval("1 / 0 * &"), Err(CalcError::DivisionByZero));
}

#[test]
fn same_line_same_result() {
    for line in ["7 + 3 * (10 / (12 / (3 + 1) - 1))", "5 / 0", "2 & 3", "(2 + 3", "", "1 2"] {
        let first = eval(line);
        let second = eval(line);
        assert_eq!(first, second);
    }
    assert_eq!(eval("5 / 0"), Err(CalcError::DivisionByZero));
    assert_eq!(eval("2 + 3"), Ok(5));
    assert_eq!(eval("5 / 0"), Err(CalcError::DivisionByZero));
}

#[test]
fn deep_nesting_is_accepted() {
    let depth = 200;
    let mut line = String::new();
    for _ in 0..depth {
        line.push('(');
    }
    line.push_str("42");
    for _ in 0..depth {
        line.push(')');
    }
    assert_eq!(eval(&line), Ok(42));
}

fn reference(a: i64, op1: char, b: i64, op2: char, c: i64) -> Option<i64> {
    fn apply(op: char, x: i64, y: i64) -> Option<i64> {
        match op {
            '+' => x.checked_add(y),
            '-' => x.checked_sub(y),
            '*' => x.checked_mul(y),
            _ => x.checked_div(y),
        }
    }
    let high = |op: char| op == '*' || op == '/';
    if high(op2) && !high(op1) {
        apply(op1, a, apply(op2, b, c)?)
    } else {
        apply(op2, apply(op1, a, b)?, c)
    }
}

#[test]
fn agrees_with_plain_arithmetic() {
    let values = [0i64, 1, 2, 3, 7, 10, 12, 100, 4611686018427387904];
    let ops = ['+', '-', '*', '/'];
    for &a in &values {
        for &b in &values {
            for &c in &values {
                for &op1 in &ops {
                    for &op2 in &ops {
                        let line = format!("{} {} {} {} {}", a, op1, b, op2, c);
                        let got = eval(&line).ok();
                        assert_eq!(got, reference(a, op1, b, op2, c));
                    }
                }
            }
        }
    }
    assert_eq!(eval("2 + 3 * 4 - 10 / 5"), Ok(12));
    assert_eq!(eval("100 - 7 * 3 / 2"), Ok(90));
}
