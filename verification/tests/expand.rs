use ruspec::ruspec;
use ruspec::errors::ParseError;
use ruspec::parser::Parser;
use ruspec::token::{Delim, Token};
use ruspec::types::{Container, DescribeStatement, Test};

fn id(text: &str) -> Token {
    Token::Ident(String::from(text))
}

fn lit(text: &str) -> Token {
    Token::Literal(String::from(text))
}

fn brace(tokens: Vec<Token>) -> Token {
    Token::Group(Delim::Brace, tokens)
}

fn paren(tokens: Vec<Token>) -> Token {
    Token::Group(Delim::Paren, tokens)
}

fn bracket(tokens: Vec<Token>) -> Token {
    Token::Group(Delim::Bracket, tokens)
}

/// `assert!(true);`
fn assert_true_body() -> Vec<Token> {
    vec![
        id("assert"),
        Token::Punct('!', false),
        paren(vec![id("true")]),
        Token::Punct(';', false),
    ]
}

/// `#[allow(unused_imports)] use super::*;`
fn mod_header() -> Vec<Token> {
    vec![
        Token::Punct('#', false),
        bracket(vec![id("allow"), paren(vec![id("unused_imports")])]),
        id("use"),
        id("super"),
        Token::Punct(':', true),
        Token::Punct(':', false),
        Token::Punct('*', false),
        Token::Punct(';', false),
    ]
}

/// `#[test] fn <name>() { <body> }`
fn test_fn(name: &str, body: Vec<Token>) -> Vec<Token> {
    vec![
        Token::Punct('#', false),
        bracket(vec![id("test")]),
        id("fn"),
        id(name),
        paren(vec![]),
        brace(body),
    ]
}

/// `mod <name> { <header> <units> }`
fn module(name: &str, units: Vec<Token>) -> Vec<Token> {
    let mut inner = mod_header();
    inner.extend(units);
    vec![id("mod"), id(name), brace(inner)]
}

#[test]
fn should_output_expected_stream() {
    let input = vec![
        id("describe"),
        lit("\"hoge\""),
        brace(vec![id("it"), lit("\"hoge\""), brace(assert_true_body())]),
    ];

    let expected = module("hoge", test_fn("hoge", assert_true_body()));

    let output = ruspec(input).unwrap();
    assert_eq!(output, expected);
}

#[test]
fn should_expand_before() {
    let hook = vec![
        id("let"),
        id("hoge"),
        Token::Punct('=', false),
        lit("1234"),
        Token::Punct(';', false),
    ];
    let input = vec![
        id("describe"),
        lit("\"hoge\""),
        brace(vec![
            id("before"),
            brace(hook.clone()),
            id("it"),
            lit("\"hoge\""),
            brace(assert_true_body()),
        ]),
    ];

    let mut body = hook;
    body.extend(assert_true_body());
    let expected = module("hoge", test_fn("hoge", body));

    let output = ruspec(input).unwrap();
    assert_eq!(output, expected);
}

#[test]
fn should_expand_after() {
    let hook = vec![
        id("let"),
        id("hoge"),
        Token::Punct('=', false),
        lit("1234"),
        Token::Punct(';', false),
    ];
    let input = vec![
        id("describe"),
        lit("\"hoge\""),
        brace(vec![
            id("after"),
            brace(hook.clone()),
            id("it"),
            lit("\"hoge\""),
            brace(assert_true_body()),
        ]),
    ];

    let mut body = assert_true_body();
    body.extend(hook);
    let expected = module("hoge", test_fn("hoge", body));

    let output = ruspec(input).unwrap();
    assert_eq!(output, expected);
}

#[test]
fn should_expand_subject() {
    let input = vec![
        id("describe"),
        lit("\"hoge\""),
        brace(vec![
            id("subject"),
            brace(vec![id("true")]),
            id("it"),
            lit("\"hoge\""),
            brace(vec![
                id("assert"),
                Token::Punct('!', false),
                paren(vec![id("subject")]),
                Token::Punct(';', false),
            ]),
        ]),
    ];

    let mut body = vec![
        id("let"),
        id("subject"),
        Token::Punct('=', false),
        paren(vec![id("true")]),
        Token::Punct(';', false),
    ];
    body.extend(vec![
        id("assert"),
        Token::Punct('!', false),
        paren(vec![id("subject")]),
        Token::Punct(';', false),
    ]);
    let expected = module("hoge", test_fn("hoge", body));

    let output = ruspec(input).unwrap();
    assert_eq!(output, expected);
}

#[test]
fn should_context_is_aliase_describe() {
    let input = vec![
        id("context"),
        lit("\"hoge\""),
        brace(vec![id("it"), lit("\"hoge\""), brace(assert_true_body())]),
    ];

    let expected = module("hoge", test_fn("hoge", assert_true_body()));

    let output = ruspec(input).unwrap();
    assert_eq!(output, expected);
}

#[test]
fn should_parse_conplex_describe() {
    let before_hook = vec![
        id("let"),
        id("hoge"),
        Token::Punct('=', false),
        lit("1"),
        Token::Punct(';', false),
    ];
    let after_hook = vec![
        id("let"),
        id("fug"),
        Token::Punct('=', false),
        lit("1"),
        Token::Punct(';', false),
    ];
    let input = vec![
        id("context"),
        lit("\"hoge\""),
        brace(vec![
            id("before"),
            brace(before_hook.clone()),
            id("after"),
            brace(after_hook.clone()),
            id("it"),
            lit("\"hoge\""),
            brace(assert_true_body()),
            id("it"),
            lit("\"fug\""),
            brace(assert_true_body()),
        ]),
    ];

    let mut body = before_hook;
    body.extend(assert_true_body());
    body.extend(after_hook);
    let mut units = test_fn("hoge", body.clone());
    units.extend(test_fn("fug", body));
    let expected = module("hoge", units);

    let output = ruspec(input).unwrap();
    assert_eq!(output, expected);
}

#[test]
fn should_parse_error_when_not_include_it() {
    let input = vec![id("describe"), lit("\"hoge\""), brace(vec![])];

    let output = ruspec(input);
    assert!(output.is_err());

    let e = output.err().unwrap();
    assert_eq!(
        e.message(),
        "not found expected keyword (it subject before after)"
    );
}

#[test]
fn should_parse_error_when_not_include_describe_str() {
    let input = vec![
        id("describe"),
        brace(vec![id("it"), lit("\"hoge\""), brace(vec![])]),
    ];

    let output = ruspec(input);
    assert!(output.is_err());

    let e = output.err().unwrap();
    assert_eq!(e.message(), "not found expected describe string");
}

#[test]
fn should_parse_error_when_not_include_it_str() {
    let input = vec![
        id("describe"),
        lit("\"hoge\""),
        brace(vec![id("it"), brace(vec![])]),
    ];

    let output = ruspec(input);
    assert!(output.is_err());

    let e = output.err().unwrap();
    assert_eq!(e.message(), "not found expected it string");
}

#[test]
fn should_perse_describe() {
    let input = vec![
        id("describe"),
        lit("\"test name\""),
        brace(vec![id("it"), lit("\"hoge\""), brace(vec![])]),
    ];
    let mut parser = Parser::new(input);

    let expected = DescribeStatement {
        name: String::from("test_name"),
        before: None,
        after: None,
        subject: None,
        containers: vec![Container::Test(Test {
            name: "hoge".into(),
            container: vec![],
        })],
    };

    assert_eq!(parser.parse().unwrap(), vec![expected]);
}

#[test]
fn error_values_carry_fixed_messages() {
    let cases = vec![
        ParseError::EmptyScope,
        ParseError::UnexpectedKeyword,
    ];
    assert_eq!(
        cases[0].message(),
        "not found expected keyword (it subject before after)"
    );
    assert_eq!(cases[1].message(), "not found expected describe keyword");
}
