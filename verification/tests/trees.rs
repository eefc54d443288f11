use calculator::error::CalcError;
use calculator::evaluate::evaluate;
use calculator::lexer::Lexer;
use calculator::token::Token;

enum Tree {
    Number(i64),
    Binary(char, Box<Tree>, Box<Tree>),
    Group(Box<Tree>),
}

struct Random(u64);

impl Random {
    fn next(&mut self) -> u64 {
        self.0 ^= self.0 << 13;
        self.0 ^= self.0 >> 7;
        self.0 ^= self.0 << 17;
        self.0
    }

    fn below(&mut self, bound: u64) -> u64 {
        self.next() % bound
    }
}

fn tree(random: &mut Random, depth: u32) -> Tree {
    if depth == 0 || random.below(4) == 0 {
        let number = match random.below(8) {
            0 => 0,
            1 => i64::MAX,
            2 => 3037000500,
            _ => random.below(20) as i64,
        };
        return Tree::Number(number);
    }
    if random.below(8) == 0 {
        return Tree::Group(Box::new(tree(random, depth - 1)));
    }
    let op = ['+', '-', '*', '/'][random.below(4) as usize];
    Tree::Binary(op, Box::new(tree(random, depth - 1)), Box::new(tree(random, depth - 1)))
}

fn value(tree: &Tree) -> Result<i64, CalcError> {
    match tree {
        Tree::Number(n) => Ok(*n),
        Tree::Group(inner) => value(inner),
        Tree::Binary(op, left, right) => {
            let a = value(left)?;
            let b = value(right)?;
            let result = match op {
                '+' => a.checked_add(b),
                '-' => a.checked_sub(b),
                '*' => a.checked_mul(b),
                _ => {
                    if b == 0 {
                        return Err(CalcError::DivisionByZero);
                    }
                    a.checked_div(b)
                }
            };
            result.ok_or(CalcError::IntegerOverflow)
        }
    }
}

fn rank(tree: &Tree) -> u8 {
    match tree {
        Tree::Binary('+', _, _) | Tree::Binary('-', _, _) => 0,
        Tree::Binary(_, _, _) => 1,
        _ => 2,
    }
}

fn gap(random: &mut Random, out: &mut String) {
    out.push_str(["", "", " ", "  ", "\t", "\u{a0}", " \u{2009}"][random.below(7) as usize]);
}

fn write(tree: &Tree, level: u8, random: &mut Random, out: &mut String) {
    if rank(tree) < level {
        gap(random, out);
        out.push('(');
        write(tree, 0, random, out);
        gap(random, out);
        out.push(')');
        return;
    }
    match tree {
        Tree::Number(n) => {
            gap(random, out);
            out.push_str(&n.to_string());
        }
        Tree::Group(inner) => {
            gap(random, out);
            out.push('(');
            write(inner, 0, random, out);
            gap(random, out);
            out.push(')');
        }
        Tree::Binary(op, left, right) => {
            write(left, rank(tree), random, out);
            gap(random, out);
            out.push(*op);
            write(right, rank(tree) + 1, random, out);
        }
    }
}

#[test]
fn written_trees_are_worth_what_the_trees_are() {
    let mut random = Random(0x9E3779B97F4A7C15);
    let mut ok = 0;
    let mut zero = 0;
    let mut overflow = 0;
    for _ in 0..4000 {
        let depth = 1 + random.below(5) as u32;
        let t = tree(&mut random, depth);
        let mut line = String::new();
        write(&t, 0, &mut random, &mut line);
        gap(&mut random, &mut line);
        let expected = value(&t);
        assert_eq!(evaluate(line.clone()), expected, "{}", line);
        match expected {
            Ok(_) => ok += 1,
            Err(CalcError::DivisionByZero) => zero += 1,
            Err(CalcError::IntegerOverflow) => overflow += 1,
            Err(_) => unreachable!(),
        }
    }
    assert!(ok > 100);
    assert!(zero > 100);
    assert!(overflow > 100);
}

#[test]
fn a_tree_written_by_hand() {
    let t = Tree::Binary(
        '+',
        Box::new(Tree::Number(7)),
        Box::new(Tree::Binary(
            '*',
            Box::new(Tree::Number(3)),
            Box::new(Tree::Binary(
                '/',
                Box::new(Tree::Number(10)),
                Box::new(Tree::Binary(
                    '-',
                    Box::new(Tree::Binary(
                        '/',
                        Box::new(Tree::Number(12)),
                        Box::new(Tree::Binary('+', Box::new(Tree::Number(3)), Box::new(Tree::Number(1)))),
                    )),
                    Box::new(Tree::Number(1)),
                )),
            )),
        )),
    );
    assert_eq!(value(&t), Ok(22));
    let mut line = String::new();
    write(&t, 0, &mut Random(1), &mut line);
    let dense: String = line.chars().filter(|c| !c.is_whitespace()).collect();
    assert_eq!(dense, "7+3*(10/(12/(3+1)-1))");
    assert_eq!(evaluate(line), Ok(22));
    assert_eq!(evaluate(dense), Ok(22));
}

fn read_all(text: &str) -> Vec<Token> {
    let mut lexer = Lexer::create_lexer(text.to_string());
    let mut tokens = Vec::new();
    loop {
        match lexer.get_next_token() {
            Ok(Token::EndOfInput) => return tokens,
            Ok(token) => tokens.push(token),
            Err(e) => panic!("{:?} in {:?}", e, text),
        }
    }
}

#[test]
fn tokens_read_back_whatever_the_gaps() {
    let tokens = vec![
        Token::LeftParen,
        Token::Integer(12),
        Token::Integer(0),
        Token::Plus,
        Token::Minus,
        Token::Integer(i64::MAX),
        Token::RightParen,
        Token::Mul,
        Token::Div,
        Token::Integer(7),
    ];
    let words = ["(", "12", "0", "+", "-", "9223372036854775807", ")", "*", "/", "7"];
    let mut random = Random(42);
    for _ in 0..200 {
        let mut line = String::new();
        for (i, word) in words.iter().enumerate() {
            gap(&mut random, &mut line);
            if i == 2 && !line.ends_with(|c: char| c.is_whitespace()) {
                line.push(' ');
            }
            line.push_str(word);
        }
        gap(&mut random, &mut line);
        assert_eq!(read_all(&line), tokens, "{:?}", line);
    }
    assert_eq!(read_all("(12 0+-9223372036854775807)*/7"), tokens);
}

fn with_interpreter<T>(line: &str, run: impl FnOnce(&mut calculator::interpreter::Interpreter) -> T) -> T {
    let mut lexer = Lexer::create_lexer(line.to_string());
    let mut interpreter = calculator::interpreter::Interpreter::create_interpreter(&mut lexer).ok().unwrap();
    run(&mut interpreter)
}

#[test]
fn term_folds_a_chain_from_the_left() {
    let mut random = Random(7);
    let mut zero = 0;
    let mut ok = 0;
    for _ in 0..2000 {
        let length = random.below(12);
        let first = random.below(50) as i64;
        let mut line = first.to_string();
        let mut expected: Result<i64, CalcError> = Ok(first);
        let mut divides_by_zero = false;
        let mut overflows = false;
        for _ in 0..length {
            let divide = random.below(2) == 0;
            let operand = if random.below(6) == 0 { 0 } else { random.below(1000) as i64 };
            let in_parentheses = random.below(3) == 0;
            gap(&mut random, &mut line);
            line.push(if divide { '/' } else { '*' });
            gap(&mut random, &mut line);
            if in_parentheses {
                line.push_str(&format!("({} + {})", operand, 0));
            } else {
                line.push_str(&operand.to_string());
            }
            divides_by_zero = divides_by_zero || (divide && operand == 0);
            expected = match expected {
                Err(e) => Err(e),
                Ok(_) if divide && operand == 0 => Err(CalcError::DivisionByZero),
                Ok(acc) => {
                    let next = if divide { acc.checked_div(operand) } else { acc.checked_mul(operand) };
                    next.ok_or(CalcError::IntegerOverflow)
                }
            };
            overflows = overflows || expected == Err(CalcError::IntegerOverflow);
        }
        let got = with_interpreter(&line, |interpreter| {
            let value = interpreter.term();
            if value.is_ok() {
                assert_eq!(
                    interpreter.factor(),
                    Err(CalcError::SyntaxError {
                        expected: calculator::error::Expected::Factor,
                        found: Token::EndOfInput
                    })
                );
            }
            value
        });
        assert_eq!(got, expected, "{}", line);
        if !overflows {
            assert_eq!(got == Err(CalcError::DivisionByZero), divides_by_zero, "{}", line);
            assert_eq!(got.is_ok(), !divides_by_zero, "{}", line);
        }
        match got {
            Ok(_) => ok += 1,
            Err(CalcError::DivisionByZero) => zero += 1,
            Err(_) => {}
        }
    }
    assert!(ok > 100);
    assert!(zero > 100);
    assert_eq!(with_interpreter("0 / 5", |interpreter| interpreter.term()), Ok(0));
    assert_eq!(with_interpreter("100 / 7 * 3 / 2", |interpreter| interpreter.term()), Ok(21));
}

#[test]
fn factor_takes_parentheses_to_any_depth() {
    for depth in 1..60 {
        let mut line = String::new();
        for _ in 0..depth {
            line.push_str("( ");
        }
        line.push_str("7 + 3 * (10 / (12 / (3 + 1) - 1))");
        for _ in 0..depth {
            line.push(')');
        }
        let got = with_interpreter(&line, |interpreter| {
            let value = interpreter.factor();
            assert_eq!(interpreter.eat(), Ok(()));
            assert_eq!(
                interpreter.factor(),
                Err(CalcError::SyntaxError {
                    expected: calculator::error::Expected::Factor,
                    found: Token::EndOfInput
                })
            );
            value
        });
        assert_eq!(got, Ok(22), "{}", line);
    }
}

#[test]
fn whitespace_around_words_with_zeros_in_front() {
    let words = ["007", "+", "(", "0", "-", "010", ")", "*", "00", "/", "1"];
    let tokens = read_all("007+(0-010)*00/1");
    assert_eq!(tokens.len(), words.len());
    assert_eq!(tokens[0], Token::Integer(7));
    assert_eq!(tokens[5], Token::Integer(10));
    let mut random = Random(99);
    for _ in 0..200 {
        let mut line = String::new();
        for word in words.iter() {
            gap(&mut random, &mut line);
            line.push_str(word);
        }
        gap(&mut random, &mut line);
        assert_eq!(read_all(&line), tokens, "{:?}", line);
        assert_eq!(evaluate(line), Ok(7));
    }
}
