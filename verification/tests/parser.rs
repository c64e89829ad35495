use fox::parsing::lexer;
use fox::parsing::lexer::{Literal, Token};
use fox::parsing::parser;
use fox::parsing::parser::{
    Ast, Definition, Expected, Expr, FunctionDefinition, FunctionType, ParamType, ValueType,
};

fn lex(source: &str) -> Vec<Token> {
    lexer::root(source).unwrap()
}

/// Parses the body of `def main = <source>`.
fn body(source: &str) -> Result<Vec<Expr>, parser::ParseError> {
    let tokens = lex(&format!("def main = {}", source));
    parser::root(&tokens).map(|ast| {
        let mut defs = ast.defs;
        assert_eq!(defs.len(), 1);
        match defs.remove(0) {
            Definition::Function(f) => {
                assert_eq!(f.name, "main");
                assert_eq!(f.ftype, None);
                f.body
            }
            Definition::Type(_) => panic!("a function was defined"),
        }
    })
}

fn num(n: i64) -> Expr {
    Expr::Literal(Literal::Int(n))
}

fn name(s: &str) -> Expr {
    Expr::Term {
        name: s.to_string(),
        module: vec![],
    }
}

#[test]
fn test_parse_block() {
    let parse = |s: &str| {
        let tokens = lex(s);
        match parser::block(&tokens, 0) {
            Some((b, end)) if end == tokens.len() => Ok(b),
            _ => Err(()),
        }
    };

    assert!(parse("{ \n}").is_ok());
    assert!(parse("a").is_err());
}

#[test]
fn term_splits_a_dotted_name() {
    assert_eq!(
        Expr::term("Core.List.empty"),
        Expr::Term {
            name: "empty".to_string(),
            module: vec!["Core".to_string(), "List".to_string()],
        }
    );
    assert_eq!(Expr::term("foo"), name("foo"));
    assert_eq!(
        Expr::term("Core.??"),
        Expr::Term {
            name: "??".to_string(),
            module: vec!["Core".to_string()],
        }
    );
}

#[test]
fn list_literal_desugars() {
    assert_eq!(
        body("[1, 2, 3]"),
        Ok(vec![
            Expr::term("Core.List.empty"),
            num(1),
            Expr::term("Core.List.push"),
            num(2),
            Expr::term("Core.List.push"),
            num(3),
            Expr::term("Core.List.push"),
        ])
    );
    assert_eq!(
        body("[1 2 +, x]"),
        Ok(vec![
            Expr::term("Core.List.empty"),
            num(1),
            num(2),
            name("+"),
            Expr::term("Core.List.push"),
            name("x"),
            Expr::term("Core.List.push"),
        ])
    );
}

#[test]
fn tuple_literal_desugars() {
    assert_eq!(
        body("(a, b, c)"),
        Ok(vec![name("a"), name("b"), name("c"), Expr::term("Core.Tuple3")])
    );
    assert_eq!(
        body("(1, 2, 3, 4, 5, 6, 7, 8, 9)"),
        Ok(vec![
            num(1),
            num(2),
            num(3),
            num(4),
            num(5),
            num(6),
            num(7),
            num(8),
            num(9),
            Expr::term("Core.Tuple9"),
        ])
    );
}

#[test]
fn tuple_of_ten_fails() {
    let e = body("(1, 2, 3, 4, 5, 6, 7, 8, 9, 10)").unwrap_err();
    assert_eq!(e.expected, Expected::Definition);
    assert_eq!((e.span.start, e.span.end), (3, 4));
}

#[test]
fn table_literal_desugars() {
    assert_eq!(
        body("[1: 'a', 2: 'b']"),
        Ok(vec![
            Expr::term("Core.Table.empty"),
            num(1),
            Expr::Literal(Literal::Char('a')),
            Expr::term("Core.Table.set"),
            num(2),
            Expr::Literal(Literal::Char('b')),
            Expr::term("Core.Table.set"),
        ])
    );
    assert_eq!(body("[:]"), Ok(vec![Expr::term("Core.Table.empty")]));
    assert_eq!(
        body("[:, 1: 2]"),
        Ok(vec![
            Expr::term("Core.Table.empty"),
            Expr::term("Core.Table.set"),
            num(1),
            num(2),
            Expr::term("Core.Table.set"),
        ])
    );
    assert!(body("[1, 2: 3]").is_err());
    assert!(body("[1: 2, 3]").is_err());
}

#[test]
fn then_else_desugars() {
    assert_eq!(
        body("then { 1 a } else { 2 }"),
        Ok(vec![
            Expr::Quote(vec![num(1), name("a")]),
            Expr::Quote(vec![num(2)]),
            Expr::term("Core.??"),
        ])
    );
    assert!(body("then { 1 }").is_err());
}

#[test]
fn lambda_quotes_one_expression() {
    assert_eq!(
        body("\\ 1 \\ Core.f"),
        Ok(vec![
            Expr::Quote(vec![num(1)]),
            Expr::Quote(vec![Expr::term("Core.f")]),
        ])
    );
    assert!(body("\\ { 1 }").is_err());
}

#[test]
fn quotes_nest() {
    assert_eq!(
        body("{ 1 { a } } {}"),
        Ok(vec![
            Expr::Quote(vec![num(1), Expr::Quote(vec![name("a")])]),
            Expr::Quote(vec![]),
        ])
    );
    assert!(body("{ 1").is_err());
}

#[test]
fn local_binds_names() {
    assert_eq!(
        body("10 20 -> x, y x"),
        Ok(vec![
            num(10),
            num(20),
            Expr::Local(vec!["x".to_string(), "y".to_string()]),
            name("x"),
        ])
    );
    assert_eq!(body("-> a"), Ok(vec![Expr::Local(vec!["a".to_string()])]));
    assert!(body("-> 1").is_err());
}

#[test]
fn terms_with_modules() {
    assert_eq!(body("Core.List.push"), Ok(vec![Expr::term("Core.List.push")]));
    assert!(body("Core.List").is_err());
    assert!(body(".push").is_err());
    assert!(body("Foo").is_err());
}

#[test]
fn empty_list_has_no_items() {
    assert_eq!(body("[]"), Ok(vec![Expr::term("Core.List.empty")]));
    assert_eq!(body("[ ]"), Ok(vec![Expr::term("Core.List.empty")]));
}

#[test]
fn empty_elements_count() {
    assert_eq!(
        body("[1, ]"),
        Ok(vec![
            Expr::term("Core.List.empty"),
            num(1),
            Expr::term("Core.List.push"),
            Expr::term("Core.List.push"),
        ])
    );
    assert_eq!(
        body("[,]"),
        Ok(vec![
            Expr::term("Core.List.empty"),
            Expr::term("Core.List.push"),
            Expr::term("Core.List.push"),
        ])
    );
    assert_eq!(body("()"), Ok(vec![Expr::term("Core.Tuple1")]));
    assert_eq!(body("(1)"), Ok(vec![num(1), Expr::term("Core.Tuple1")]));
}

#[test]
fn function_definitions() {
    let tokens = lex("def one = 1\ndef two (Int, (Int -> Core.Bool) -> Int) = 2 # done");
    let ast = parser::root(&tokens).unwrap();
    let int_type = || {
        ParamType::Value(ValueType {
            name: "Int".to_string(),
            module: vec![],
        })
    };
    assert_eq!(
        ast,
        Ast {
            defs: vec![
                Definition::Function(FunctionDefinition {
                    name: "one".to_string(),
                    ftype: None,
                    body: vec![num(1)],
                }),
                Definition::Function(FunctionDefinition {
                    name: "two".to_string(),
                    ftype: Some(FunctionType {
                        inputs: vec![
                            int_type(),
                            ParamType::Function(FunctionType {
                                inputs: vec![int_type()],
                                output: vec![ParamType::Value(ValueType {
                                    name: "Bool".to_string(),
                                    module: vec!["Core".to_string()],
                                })],
                            }),
                        ],
                        output: vec![int_type()],
                    }),
                    body: vec![num(2)],
                }),
            ]
        }
    );
}

#[test]
fn function_type_forms() {
    let parse = |s: &str| {
        let tokens = lex(s);
        match parser::function_type(&tokens, 0) {
            Some((f, end)) if end == tokens.len() => Ok(f),
            _ => Err(()),
        }
    };
    assert_eq!(
        parse("()"),
        Ok(FunctionType {
            inputs: vec![],
            output: vec![]
        })
    );
    let a = || {
        ParamType::Value(ValueType {
            name: "A".to_string(),
            module: vec![],
        })
    };
    assert_eq!(
        parse("(-> A)"),
        Ok(FunctionType {
            inputs: vec![],
            output: vec![a()]
        })
    );
    assert_eq!(
        parse("(A, A)"),
        Ok(FunctionType {
            inputs: vec![a(), a()],
            output: vec![]
        })
    );
    assert!(parse("(A").is_err());
    assert!(parse("(A,)").is_err());
    assert!(parse("(a)").is_err());
}

#[test]
fn type_definitions() {
    let tokens = lex("type Shape a = | Circle Num | Rect { w: Num, h: a, w: Int } | Empty");
    let ast = parser::root(&tokens).unwrap();
    assert_eq!(ast.defs.len(), 1);
    let t = match &ast.defs[0] {
        Definition::Type(t) => t,
        _ => panic!("a type was defined"),
    };
    assert_eq!(t.name, "Shape");
    assert_eq!(t.vars, vec!["a".to_string()]);
    assert_eq!(t.variants.len(), 3);
    assert_eq!(t.variants[0].name, "Circle");
    assert_eq!(t.variants[0].get("_0"), Some(&"Num".to_string()));
    assert_eq!(t.variants[0].get("_1"), None);
    assert_eq!(t.variants[1].name, "Rect");
    assert_eq!(t.variants[1].get("w"), Some(&"Int".to_string()));
    assert_eq!(t.variants[1].get("h"), Some(&"a".to_string()));
    assert_eq!(t.variants[2].name, "Empty");
    assert_eq!(t.variants[2].items.len(), 0);
}

#[test]
fn tuple_variant_numbers_its_fields() {
    let tokens = lex("type T = V a b c d e f g h i j k l");
    let ast = parser::root(&tokens).unwrap();
    let t = match &ast.defs[0] {
        Definition::Type(t) => t,
        _ => panic!("a type was defined"),
    };
    assert_eq!(t.variants[0].get("_0"), Some(&"a".to_string()));
    assert_eq!(t.variants[0].get("_9"), Some(&"j".to_string()));
    assert_eq!(t.variants[0].get("_10"), Some(&"k".to_string()));
    assert_eq!(t.variants[0].get("_11"), Some(&"l".to_string()));
    assert_eq!(t.variants[0].get("_12"), None);
}

#[test]
fn parse_errors() {
    let e = parser::root(&lex("def = 1")).unwrap_err();
    assert_eq!(e.expected, Expected::FunctionDefinition);
    assert_eq!((e.span.start, e.span.end), (0, 1));
    let e = parser::root(&lex("def a = 1 type t = A")).unwrap_err();
    assert_eq!(e.expected, Expected::TypeDefinition);
    assert_eq!((e.span.start, e.span.end), (4, 5));
    let e = parser::root(&lex("type T =")).unwrap_err();
    assert_eq!(e.expected, Expected::TypeDefinition);
    let e = parser::root(&lex("def a = 1 )")).unwrap_err();
    assert_eq!(e.expected, Expected::Definition);
    assert_eq!((e.span.start, e.span.end), (4, 5));
    assert_eq!(parser::root(&lex("")), Ok(Ast { defs: vec![] }));
}

#[test]
fn keyword_takes_the_given_token() {
    let tokens = lex("def x");
    assert_eq!(parser::keyword(&tokens, 0, &Token::Def), Some((Token::Def, 1)));
    assert_eq!(parser::keyword(&tokens, 1, &Token::Def), None);
    assert_eq!(
        parser::keyword(&tokens, 1, &Token::Term("x".to_string())),
        Some((Token::Term("x".to_string()), 2))
    );
    assert_eq!(parser::keyword(&tokens, 2, &Token::Def), None);
}
