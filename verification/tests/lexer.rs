use calculator::chars::{is_digit, is_whitespace, to_digit};
use calculator::error::CalcError;
use calculator::lexer::Lexer;
use calculator::token::Token;

fn lexer(text: &str) -> Lexer {
    Lexer::create_lexer(text.to_string())
}

fn tokens(text: &str) -> Vec<Result<Token, CalcError>> {
    let mut lexer = lexer(text);
    let mut out = Vec::new();
    loop {
        let step = lexer.get_next_token();
        let stop = step == Ok(Token::EndOfInput) || step.is_err();
        out.push(step);
        if stop {
            return out;
        }
    }
}

#[test]
fn every_kind_of_token() {
    assert_eq!(
        tokens("12+3 -(4*50)/ 6"),
        vec![
            Ok(Token::Integer(12)),
            Ok(Token::Plus),
            Ok(Token::Integer(3)),
            Ok(Token::Minus),
            Ok(Token::LeftParen),
            Ok(Token::Integer(4)),
            Ok(Token::Mul),
            Ok(Token::Integer(50)),
            Ok(Token::RightParen),
            Ok(Token::Div),
            Ok(Token::Integer(6)),
            Ok(Token::EndOfInput),
        ]
    );
}

#[test]
fn end_of_input_again_and_again() {
    let mut lexer = lexer(" 1 ");
    assert_eq!(lexer.get_next_token(), Ok(Token::Integer(1)));
    for _ in 0..5 {
        assert_eq!(lexer.get_next_token(), Ok(Token::EndOfInput));
    }
    let mut empty = Lexer::create_lexer(String::new());
    for _ in 0..5 {
        assert_eq!(empty.get_next_token(), Ok(Token::EndOfInput));
    }
}

#[test]
fn invalid_character_is_not_passed() {
    let mut lexer = lexer("1 ? 2");
    assert_eq!(lexer.get_next_token(), Ok(Token::Integer(1)));
    for _ in 0..3 {
        assert_eq!(
            lexer.get_next_token(),
            Err(CalcError::InvalidCharacter { ch: '?', position: 2 })
        );
    }
}

#[test]
fn letters_and_other_punctuation_are_invalid() {
    assert_eq!(tokens("a"), vec![Err(CalcError::InvalidCharacter { ch: 'a', position: 0 })]);
    assert_eq!(tokens(" ^"), vec![Err(CalcError::InvalidCharacter { ch: '^', position: 1 })]);
    assert_eq!(tokens("\u{3b1}"), vec![Err(CalcError::InvalidCharacter { ch: '\u{3b1}', position: 0 })]);
    assert_eq!(tokens("\u{663}"), vec![Err(CalcError::InvalidCharacter { ch: '\u{663}', position: 0 })]);
    assert_eq!(tokens("1.5"), vec![Ok(Token::Integer(1)), Err(CalcError::InvalidCharacter { ch: '.', position: 1 })]);
}

#[test]
fn literal_takes_the_whole_run_of_digits() {
    assert_eq!(tokens("007"), vec![Ok(Token::Integer(7)), Ok(Token::EndOfInput)]);
    assert_eq!(tokens("9223372036854775807"), vec![Ok(Token::Integer(i64::MAX)), Ok(Token::EndOfInput)]);
    assert_eq!(tokens("0"), vec![Ok(Token::Integer(0)), Ok(Token::EndOfInput)]);
}

#[test]
fn overflowing_literal_is_passed_whole() {
    let mut lexer = lexer("92233720368547758070+1");
    assert_eq!(lexer.get_next_token(), Err(CalcError::IntegerOverflow));
    assert_eq!(lexer.get_next_token(), Ok(Token::Plus));
    assert_eq!(lexer.get_next_token(), Ok(Token::Integer(1)));
    assert_eq!(lexer.get_next_token(), Ok(Token::EndOfInput));
}

#[test]
fn integer_reads_digits_under_the_cursor() {
    let mut lexer = lexer("123abc");
    assert_eq!(lexer.integer(), Ok(123));
    assert_eq!(lexer.integer(), Ok(0));
    assert_eq!(lexer.get_next_token(), Err(CalcError::InvalidCharacter { ch: 'a', position: 3 }));
    let mut big = Lexer::create_lexer("9223372036854775808 7".to_string());
    assert_eq!(big.integer(), Err(CalcError::IntegerOverflow));
    assert_eq!(big.get_next_token(), Ok(Token::Integer(7)));
}

#[test]
fn advance_moves_one_character() {
    let mut lexer = lexer("1+2");
    lexer.advance();
    assert_eq!(lexer.get_next_token(), Ok(Token::Plus));
    lexer.advance();
    assert_eq!(lexer.get_next_token(), Ok(Token::EndOfInput));
    lexer.advance();
    lexer.advance();
    assert_eq!(lexer.get_next_token(), Ok(Token::EndOfInput));
}

#[test]
fn advance_on_empty_text_stays() {
    let mut lexer = Lexer::create_lexer(String::new());
    lexer.advance();
    assert_eq!(lexer.get_next_token(), Ok(Token::EndOfInput));
}

#[test]
fn skip_whitespaces_stops_at_a_token() {
    let mut lexer = lexer(" \t\n 42 ");
    lexer.skip_whitespaces();
    assert_eq!(lexer.integer(), Ok(42));
    lexer.skip_whitespaces();
    lexer.skip_whitespaces();
    assert_eq!(lexer.get_next_token(), Ok(Token::EndOfInput));
    let mut other = Lexer::create_lexer("x ".to_string());
    other.skip_whitespaces();
    assert_eq!(other.get_next_token(), Err(CalcError::InvalidCharacter { ch: 'x', position: 0 }));
}

#[test]
fn whitespace_is_what_std_says() {
    let mut count = 0;
    for code in 0..=0x10FFFFu32 {
        if let Some(c) = char::from_u32(code) {
            assert_eq!(is_whitespace(c), c.is_whitespace(), "U+{:04X}", code);
            if is_whitespace(c) {
                count += 1;
            }
        }
    }
    assert_eq!(count, 25);
}

#[test]
fn digits_are_what_std_says() {
    for code in 0..=0x10FFFFu32 {
        if let Some(c) = char::from_u32(code) {
            assert_eq!(is_digit(c), c.is_ascii_digit(), "U+{:04X}", code);
            let expected = if c.is_ascii_digit() { c.to_digit(10).map(i64::from) } else { None };
            assert_eq!(to_digit(c), expected, "U+{:04X}", code);
        }
    }
    assert_eq!(to_digit('0'), Some(0));
    assert_eq!(to_digit('7'), Some(7));
    assert_eq!(to_digit('9'), Some(9));
    assert_eq!(to_digit('a'), None);
    assert_eq!(to_digit('/'), None);
    assert_eq!(to_digit(':'), None);
}
