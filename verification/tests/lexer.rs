use fox::parsing::lexer;
use fox::parsing::lexer::{Expected, Literal, Token};

fn chars(s: &str) -> Vec<char> {
    s.chars().collect()
}

/// Runs a scanner at the start of `s` and asks that it consumes all of it.
fn whole<T>(scan: fn(&[char], usize) -> Option<(T, usize)>, s: &str) -> Result<T, ()> {
    let input = chars(s);
    match scan(&input, 0) {
        Some((v, end)) if end == input.len() => Ok(v),
        _ => Err(()),
    }
}

fn float_value(s: &str) -> Result<f64, ()> {
    whole(lexer::float, s).map(|text| text.parse::<f64>().unwrap())
}

#[test]
fn test_parse_int() {
    let parse = |s: &str| whole(lexer::integer, s);

    assert_eq!(parse("0"), Ok(0));
    assert_eq!(parse("1"), Ok(1));
    assert_eq!(parse("-1"), Ok(-1));

    assert!(parse("+1").is_err());
    assert!(parse("01").is_err());
    assert!(parse("3.14").is_err());
    assert!(parse("foo").is_err());
}

#[test]
fn test_parse_string() {
    let parse = |s: &str| whole(lexer::string, s);
    assert_eq!(parse(r#""f o o""#), Ok("f o o".chars().collect()));

    assert!(parse(r#"""foo""#).is_err());
    assert!(parse("1").is_err());
    assert!(parse("0.0").is_err());
}

#[test]
fn test_parse_char() {
    let parse = |s: &str| whole(lexer::character, s);
    assert_eq!(parse("'a'"), Ok('a'));
    assert_eq!(parse("'1'"), Ok('1'));

    assert!(parse("1").is_err());
}

#[test]
fn test_parse_float() {
    let parse = float_value;

    assert_eq!(parse("0.0"), Ok(0.0));
    assert_eq!(parse("-3.14"), Ok(-3.14));

    assert!(parse("+0.0").is_err());
    assert!(parse("01.0").is_err());
    assert!(parse("3").is_err());
    assert!(parse(".14").is_err());
    assert!(parse("foo").is_err());
}

#[test]
fn test_parse_literal() {
    let parse = |s: &str| whole(lexer::literal, s);

    assert_eq!(parse("0"), Ok(Token::Literal(Literal::Int(0))));
    assert_eq!(
        parse("0.0"),
        Ok(Token::Literal(Literal::Float("0.0".to_string())))
    );
    assert_eq!(parse("'c'"), Ok(Token::Literal(Literal::Char('c'))));
    assert_eq!(
        parse(r#""foo""#),
        Ok(Token::Literal(Literal::String("foo".chars().collect())))
    );
}

#[test]
fn test_parse_term() {
    let parse = |s: &str| whole(lexer::term, s);

    assert_eq!(parse("foo"), Ok(Token::Term("foo".to_string())));
    assert_eq!(parse(">5"), Ok(Token::Term(">5".to_string())));
    assert_eq!(parse("hasFlag?"), Ok(Token::Term("hasFlag?".to_string())));
    assert_eq!(
        parse(r#">bar<_=-+?!*/%|~"#),
        Ok(Token::Term(">bar<_=-+?!*/%|~".to_string()))
    );

    assert!(parse("0").is_err());
    assert!(parse("Foo").is_err());
}

#[test]
fn lex_integers() {
    assert_eq!(lexer::root("0"), Ok(vec![Token::Literal(Literal::Int(0))]));
    assert_eq!(lexer::root("-42"), Ok(vec![Token::Literal(Literal::Int(-42))]));
    assert_eq!(
        lexer::root("9223372036854775807"),
        Ok(vec![Token::Literal(Literal::Int(i64::MAX))])
    );
    assert_eq!(
        lexer::root("-9223372036854775808"),
        Ok(vec![Token::Literal(Literal::Int(i64::MIN))])
    );
    assert_eq!(lexer::root("+1"), Ok(vec![Token::Term("+1".to_string())]));
    assert_eq!(
        lexer::root("01"),
        Ok(vec![Token::Literal(Literal::Int(0)), Token::Literal(Literal::Int(1))])
    );
}

#[test]
fn lex_integer_out_of_range() {
    let e = lexer::root("x 9223372036854775808").unwrap_err();
    assert_eq!(e.expected, Expected::IntInRange);
    assert_eq!((e.span.start, e.span.end), (2, 21));
    let e = lexer::root("-9223372036854775809").unwrap_err();
    assert_eq!(e.expected, Expected::IntInRange);
}

#[test]
fn lex_comments_and_whitespace() {
    assert_eq!(lexer::root("# nothing here"), Ok(vec![]));
    assert_eq!(lexer::root(""), Ok(vec![]));
    assert_eq!(
        lexer::root("  # first\r\n a # second\n\tb"),
        Ok(vec![Token::Term("a".to_string()), Token::Term("b".to_string())])
    );
}

#[test]
fn lex_keywords_and_punctuation() {
    assert_eq!(
        lexer::root("def type then else = \\ . , : | ( ) { } [ ] ->"),
        Ok(vec![
            Token::Def,
            Token::Type,
            Token::Then,
            Token::Else,
            Token::Eq,
            Token::Lambda,
            Token::Dot,
            Token::Comma,
            Token::Colon,
            Token::Pipe,
            Token::LParen,
            Token::RParen,
            Token::LBrace,
            Token::RBrace,
            Token::LBracket,
            Token::RBracket,
            Token::Arrow,
        ])
    );
    assert_eq!(
        lexer::root("define thenx ->x - -x"),
        Ok(vec![
            Token::Term("define".to_string()),
            Token::Term("thenx".to_string()),
            Token::Arrow,
            Token::Term("x".to_string()),
            Token::Term("-".to_string()),
            Token::Term("-x".to_string()),
        ])
    );
}

#[test]
fn lex_names_and_literals() {
    assert_eq!(
        lexer::root("Core.List.push 1.50 'x' \"a b\""),
        Ok(vec![
            Token::Module("Core".to_string()),
            Token::Dot,
            Token::Module("List".to_string()),
            Token::Dot,
            Token::Term("push".to_string()),
            Token::Literal(Literal::Float("1.50".to_string())),
            Token::Literal(Literal::Char('x')),
            Token::Literal(Literal::String("a b".to_string())),
        ])
    );
}

#[test]
fn lex_errors() {
    let e = lexer::root("a \"open").unwrap_err();
    assert_eq!(e.expected, Expected::StringEnd);
    assert_eq!((e.span.start, e.span.end), (2, 7));
    let e = lexer::root("'ab'").unwrap_err();
    assert_eq!(e.expected, Expected::CharEnd);
    assert_eq!((e.span.start, e.span.end), (0, 1));
    let e = lexer::root("a $").unwrap_err();
    assert_eq!(e.expected, Expected::Token);
    assert_eq!((e.span.start, e.span.end), (2, 3));
}
