use fox::parsing::lexer;
use fox::parsing::lexer::{Literal, Token};

/// Lexes `s` and asks that it is one literal.
fn one_literal(s: &str) -> Result<Literal, ()> {
    match lexer::root(s) {
        Ok(mut tokens) if tokens.len() == 1 => match tokens.remove(0) {
            Token::Literal(l) => Ok(l),
            _ => Err(()),
        },
        _ => Err(()),
    }
}

fn parse_int(s: &str) -> Result<i64, ()> {
    match one_literal(s) {
        Ok(Literal::Int(n)) => Ok(n),
        _ => Err(()),
    }
}

fn parse_float(s: &str) -> Result<f64, ()> {
    match one_literal(s) {
        Ok(Literal::Float(text)) => Ok(text.parse().unwrap()),
        _ => Err(()),
    }
}

fn parse_string(s: &str) -> Result<Vec<char>, ()> {
    match one_literal(s) {
        Ok(Literal::String(text)) => Ok(text.chars().collect()),
        _ => Err(()),
    }
}

fn parse_char(s: &str) -> Result<char, ()> {
    match one_literal(s) {
        Ok(Literal::Char(c)) => Ok(c),
        _ => Err(()),
    }
}

#[test]
fn parser_test_parse_int() {
    let parse = parse_int;

    assert_eq!(parse("0"), Ok(0));
    assert_eq!(parse("1"), Ok(1));
    assert_eq!(parse("-1"), Ok(-1));

    assert!(parse("+1").is_err());
    assert!(parse("01").is_err());
    assert!(parse("3.14").is_err());
    assert!(parse("foo").is_err());
}

#[test]
fn parser_test_parse_string() {
    let parse = parse_string;
    assert_eq!(parse(r#""f o o""#), Ok("f o o".chars().collect()));

    assert!(parse(r#"""foo""#).is_err());
    assert!(parse("1").is_err());
    assert!(parse("0.0").is_err());
}

#[test]
fn parser_test_parse_char() {
    let parse = parse_char;
    assert_eq!(parse("'a'"), Ok('a'));
    assert_eq!(parse("'1'"), Ok('1'));

    assert!(parse("1").is_err());
}

#[test]
fn parser_test_parse_float() {
    let parse = parse_float;

    assert_eq!(parse("0.0"), Ok(0.0));
    assert_eq!(parse("-3.14"), Ok(-3.14));

    assert!(parse("+0.0").is_err());
    assert!(parse("01.0").is_err());
    assert!(parse("3").is_err());
    assert!(parse(".14").is_err());
    assert!(parse("foo").is_err());
}

#[test]
fn parser_test_parse_literal() {
    let parse = one_literal;

    assert_eq!(parse("0"), Ok(Literal::Int(0)));
    assert_eq!(parse("0.0"), Ok(Literal::Float("0.0".to_string())));
    assert_eq!(parse("'c'"), Ok(Literal::Char('c')));
    assert_eq!(
        parse(r#""foo""#),
        Ok(Literal::String("foo".chars().collect()))
    );
}

#[test]
fn float_keeps_its_digits() {
    assert_eq!(one_literal("1.05"), Ok(Literal::Float("1.05".to_string())));
    assert_eq!(parse_float("1.05"), Ok(1.05));
    assert_eq!(parse_float("-0.5"), Ok(-0.5));
    assert_eq!(parse_float("99999999999999999999.25"), Ok(99999999999999999999.25));
}

#[test]
fn function_name_gives_the_text() {
    let input: Vec<char> = "has? x".chars().collect();
    assert_eq!(lexer::function_name(&input, 0), Some(("has?".to_string(), 4)));
    assert_eq!(lexer::function_name(&input, 4), None);
    assert_eq!(lexer::function_name(&input, 5), Some(("x".to_string(), 6)));
    assert_eq!(lexer::function_name(&input, 6), None);
}

#[test]
fn module_and_comment_scanners() {
    let input: Vec<char> = "Core9x.y # c\nz".chars().collect();
    assert_eq!(
        lexer::module(&input, 0),
        Some((Token::Module("Core9x".to_string()), 6))
    );
    assert_eq!(lexer::module(&input, 7), None);
    assert_eq!(lexer::comment(&input, 9), Some(13));
    assert_eq!(lexer::comment(&input, 0), None);
    assert_eq!(lexer::skip_trivia(&input, 8), 13);
    assert_eq!(lexer::keyword(&input, 6), Some((Token::Dot, 7)));
    assert_eq!(lexer::keyword(&input, 0), None);
}

#[test]
fn tokens_are_compared_by_kind_and_payload() {
    assert!(Token::Def.same(&Token::Def));
    assert!(!Token::Def.same(&Token::Type));
    assert!(Token::Term("a".to_string()).same(&Token::Term("a".to_string())));
    assert!(!Token::Term("a".to_string()).same(&Token::Term("b".to_string())));
    assert!(!Token::Term("a".to_string()).same(&Token::Module("a".to_string())));
    assert!(Literal::Float("1.0".to_string()).same(&Literal::Float("1.0".to_string())));
    assert!(!Literal::Int(1).same(&Literal::Int(2)));
    assert!(!Literal::Int(1).same(&Literal::Char('1')));
}
