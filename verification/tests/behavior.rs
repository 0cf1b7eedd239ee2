use ruspec::ruspec;
use ruspec::errors::{BlockPlace, KeywordPlace, NamePlace, ParseError};
use ruspec::parser::Parser;
use ruspec::token::{Delim, Token};

fn id(text: &str) -> Token {
    Token::Ident(String::from(text))
}

fn lit(text: &str) -> Token {
    Token::Literal(String::from(text))
}

fn brace(tokens: Vec<Token>) -> Token {
    Token::Group(Delim::Brace, tokens)
}

fn paren(tokens: Vec<Token>) -> Token {
    Token::Group(Delim::Paren, tokens)
}

fn bracket(tokens: Vec<Token>) -> Token {
    Token::Group(Delim::Bracket, tokens)
}

/// `#[allow(unused_imports)] use super::*;`
fn mod_header() -> Vec<Token> {
    vec![
        Token::Punct('#', false),
        bracket(vec![id("allow"), paren(vec![id("unused_imports")])]),
        id("use"),
        id("super"),
        Token::Punct(':', true),
        Token::Punct(':', false),
        Token::Punct('*', false),
        Token::Punct(';', false),
    ]
}

/// `#[test] fn <name>() { <body> }`
fn test_fn(name: &str, body: Vec<Token>) -> Vec<Token> {
    vec![
        Token::Punct('#', false),
        bracket(vec![id("test")]),
        id("fn"),
        id(name),
        paren(vec![]),
        brace(body),
    ]
}

/// `mod <name> { <header> <units> }`
fn module(name: &str, units: Vec<Token>) -> Vec<Token> {
    let mut inner = mod_header();
    inner.extend(units);
    vec![id("mod"), id(name), brace(inner)]
}

#[test]
fn identical_input_yields_identical_output() {
    let input = vec![
        id("describe"),
        lit("\"hoge\""),
        brace(vec![id("it"), lit("\"hoge\""), brace(vec![id("x")])]),
    ];
    let first = ruspec(input.clone()).unwrap();
    let second = ruspec(input).unwrap();
    assert_eq!(first, second);
}

#[test]
fn empty_scope_gives_empty_scope_error() {
    let input = vec![id("describe"), lit("\"hoge\""), brace(vec![])];
    let e = ruspec(input).err().unwrap();
    assert_eq!(e, ParseError::EmptyScope);
}

#[test]
fn missing_scope_literal_gives_missing_literal_error() {
    let input = vec![id("describe"), brace(vec![])];
    let e = ruspec(input).err().unwrap();
    assert_eq!(e, ParseError::MissingLiteral(NamePlace::Scope));
}

#[test]
fn missing_scope_block_gives_missing_block_error() {
    let input = vec![id("describe"), lit("\"hoge\"")];
    let e = ruspec(input).err().unwrap();
    assert_eq!(e, ParseError::MissingBlock(BlockPlace::Scope));
}

#[test]
fn missing_test_block_gives_missing_block_error() {
    let input = vec![
        id("describe"),
        lit("\"hoge\""),
        brace(vec![id("it"), lit("\"x\"")]),
    ];
    let e = ruspec(input).err().unwrap();
    assert_eq!(e, ParseError::MissingBlock(BlockPlace::Test));
    assert_eq!(e.message(), "not found expected it block");
}

#[test]
fn missing_hook_block_gives_missing_block_error() {
    let input = vec![id("describe"), lit("\"hoge\""), brace(vec![id("before")])];
    let e = ruspec(input).err().unwrap();
    assert_eq!(e, ParseError::MissingBlock(BlockPlace::Hook));
    assert_eq!(e.message(), "not found expected keyword");
}

#[test]
fn non_keyword_at_top_level_gives_missing_keyword_error() {
    let input = vec![lit("\"hoge\"")];
    let e = ruspec(input).err().unwrap();
    assert_eq!(e, ParseError::MissingKeyword(KeywordPlace::TopLevel));
    assert_eq!(e.message(), "not found keyword in parse");
}

#[test]
fn wrong_keyword_at_top_level_gives_unexpected_keyword_error() {
    let input = vec![id("it"), lit("\"hoge\""), brace(vec![])];
    let e = ruspec(input).err().unwrap();
    assert_eq!(e, ParseError::UnexpectedKeyword);
    assert_eq!(e.message(), "not found expected describe keyword");
}

#[test]
fn stray_token_in_container_list_gives_missing_keyword_error() {
    let input = vec![
        id("describe"),
        lit("\"hoge\""),
        brace(vec![id("it"), lit("\"x\""), brace(vec![]), lit("42")]),
    ];
    let e = ruspec(input).err().unwrap();
    assert_eq!(e, ParseError::MissingKeyword(KeywordPlace::ContainerList));
    assert_eq!(e.message(), "not found keyword in parse_containers");
}

#[test]
fn non_word_after_hooks_gives_missing_keyword_error() {
    let input = vec![
        id("describe"),
        lit("\"hoge\""),
        brace(vec![id("before"), brace(vec![]), lit("42")]),
    ];
    let e = ruspec(input).err().unwrap();
    assert_eq!(e, ParseError::MissingKeyword(KeywordPlace::ScopeBody));
    assert_eq!(
        e.message(),
        "not found expected keyword (it subject before after)"
    );
}

#[test]
fn hooks_without_containers_give_missing_keyword_error() {
    let input = vec![
        id("describe"),
        lit("\"hoge\""),
        brace(vec![id("before"), brace(vec![id("x")])]),
    ];
    let e = ruspec(input).err().unwrap();
    assert_eq!(e, ParseError::MissingKeyword(KeywordPlace::ScopeBody));
}

#[test]
fn second_hook_declaration_overwrites_first() {
    let input = vec![
        id("describe"),
        lit("\"hoge\""),
        brace(vec![
            id("before"),
            brace(vec![id("first")]),
            id("before"),
            brace(vec![id("second")]),
            id("it"),
            lit("\"t\""),
            brace(vec![]),
        ]),
    ];
    let expected = module("hoge", test_fn("t", vec![id("second")]));
    let output = ruspec(input).unwrap();
    assert_eq!(output, expected);
}

#[test]
fn three_nested_scopes_give_three_nested_modules() {
    let innermost = vec![id("it"), lit("\"t\""), brace(vec![id("x")])];
    let level2 = vec![id("describe"), lit("\"c\""), brace(innermost)];
    let level1 = vec![id("describe"), lit("\"b\""), brace(level2)];
    let input = vec![id("describe"), lit("\"a\""), brace(level1)];

    let inner_mod = module("c", test_fn("t", vec![id("x")]));
    let middle_mod = module("b", inner_mod);
    let expected = module("a", middle_mod);

    let output = ruspec(input).unwrap();
    assert_eq!(output, expected);
}

#[test]
fn nested_scope_does_not_inherit_outer_hooks() {
    let input = vec![
        id("describe"),
        lit("\"outer\""),
        brace(vec![
            id("before"),
            brace(vec![id("setup")]),
            id("describe"),
            lit("\"inner\""),
            brace(vec![id("it"), lit("\"t\""), brace(vec![id("x")])]),
        ]),
    ];
    // the inner test function holds only its own body: the outer `before`
    // span is not spliced into it
    let inner_mod = module("inner", test_fn("t", vec![id("x")]));
    let expected = module("outer", inner_mod);
    let output = ruspec(input).unwrap();
    assert_eq!(output, expected);
}

#[test]
fn sibling_after_nested_scope_parses() {
    let input = vec![
        id("describe"),
        lit("\"outer\""),
        brace(vec![
            id("describe"),
            lit("\"inner\""),
            brace(vec![id("it"), lit("\"t\""), brace(vec![])]),
            id("it"),
            lit("\"u\""),
            brace(vec![id("y")]),
        ]),
    ];
    let inner_mod = module("inner", test_fn("t", vec![]));
    let mut units = inner_mod;
    units.extend(test_fn("u", vec![id("y")]));
    let expected = module("outer", units);
    let output = ruspec(input).unwrap();
    assert_eq!(output, expected);
}

#[test]
fn two_top_level_scopes_concatenate_in_order() {
    let input = vec![
        id("describe"),
        lit("\"a\""),
        brace(vec![id("it"), lit("\"t\""), brace(vec![])]),
        id("context"),
        lit("\"b\""),
        brace(vec![id("it"), lit("\"u\""), brace(vec![])]),
    ];
    let mut expected = module("a", test_fn("t", vec![]));
    expected.extend(module("b", test_fn("u", vec![])));
    let output = ruspec(input).unwrap();
    assert_eq!(output, expected);
}

#[test]
fn hook_body_order_is_before_subject_body_after() {
    let input = vec![
        id("describe"),
        lit("\"h\""),
        brace(vec![
            id("before"),
            brace(vec![id("setup")]),
            id("after"),
            brace(vec![id("teardown")]),
            id("subject"),
            brace(vec![id("value")]),
            id("it"),
            lit("\"t\""),
            brace(vec![id("own")]),
        ]),
    ];
    let body = vec![
        id("setup"),
        id("let"),
        id("subject"),
        Token::Punct('=', false),
        paren(vec![id("value")]),
        Token::Punct(';', false),
        id("own"),
        id("teardown"),
    ];
    let expected = module("h", test_fn("t", body));
    let output = ruspec(input).unwrap();
    assert_eq!(output, expected);
}

#[test]
fn display_names_are_sanitized_to_snake_case() {
    let input = vec![
        id("describe"),
        lit("\"Outer Scope\""),
        brace(vec![id("it"), lit("\"does The Thing\""), brace(vec![])]),
    ];
    let expected = module("outer_scope", test_fn("does_the_thing", vec![]));
    let output = ruspec(input).unwrap();
    assert_eq!(output, expected);
}

#[test]
fn cursor_exposes_current_and_lookahead() {
    let parser = Parser::new(vec![id("a"), id("b")]);
    assert_eq!(parser.current(), Some(&id("a")));
    assert_eq!(parser.peek(), Some(&id("b")));

    let mut parser = Parser::new(vec![id("a"), id("b")]);
    parser.advance();
    assert_eq!(parser.current(), Some(&id("b")));
    assert_eq!(parser.peek(), None);
    parser.advance();
    assert_eq!(parser.current(), None);
    assert_eq!(parser.peek(), None);
}

#[test]
fn empty_input_parses_to_empty_output() {
    let output = ruspec(vec![]).unwrap();
    assert_eq!(output, Vec::<Token>::new());
}
