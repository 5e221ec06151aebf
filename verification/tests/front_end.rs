//! End-to-end behaviour of the scanner and the recognizer together.

use minic_front::parser::{ParseError, Parser};
use minic_front::scanner::scan;
use minic_front::token::TokenKind;

fn kinds_of(text: &str) -> Vec<TokenKind> {
    scan(text).iter().map(|l| l.kind).collect()
}

fn lexemes_of(text: &str) -> Vec<String> {
    scan(text).iter().map(|l| l.lexeme.clone()).collect()
}

fn parse_text(text: &str) -> Result<(), ParseError> {
    let mut p = Parser::new(scan(text));
    p.parse()
}

#[test]
fn valid_program_is_accepted_and_fully_consumed() {
    let tokens = scan("int f(int x){return x;}");
    let n = tokens.len();
    let mut p = Parser::new(tokens);
    assert!(p.parse().is_ok());
    assert_eq!(p.pos, n);
}

#[test]
fn scan_of_function_with_argument() {
    let text = "int f(int x){return x;}";
    assert_eq!(
        kinds_of(text),
        vec![
            TokenKind::VarTypeInt,
            TokenKind::Identifier,
            TokenKind::LeftParen,
            TokenKind::VarTypeInt,
            TokenKind::Identifier,
            TokenKind::RightParen,
            TokenKind::LeftBracket,
            TokenKind::ReturnKeyword,
            TokenKind::Identifier,
            TokenKind::Eol,
            TokenKind::RightBracket,
        ]
    );
    assert_eq!(
        lexemes_of(text),
        vec!["int", "f", "(", "int", "x", ")", "{", "return", "x", ";", "}"]
    );
    assert!(parse_text(text).is_ok());
}

#[test]
fn dropping_the_final_token_fails_for_want_of_input() {
    let mut tokens = scan("int f(int x){return x;}");
    tokens.pop();
    let mut p = Parser::new(tokens);
    match p.parse() {
        Err(ParseError::UnexpectedEndOfInput { .. }) => (),
        other => panic!("expected UnexpectedEndOfInput, got {:?}", other),
    }
}

#[test]
fn one_extra_trailing_token_fails_as_trailing() {
    let mut tokens = scan("int f(int x){return x;}");
    let n = tokens.len();
    tokens.push(minic_front::token::Lex {
        kind: TokenKind::Number,
        lexeme: "7".to_string(),
    });
    let mut p = Parser::new(tokens);
    match p.parse() {
        Err(ParseError::TrailingTokens { consumed, total }) => {
            assert_eq!(consumed, n);
            assert_eq!(total, n + 1);
        }
        other => panic!("expected TrailingTokens, got {:?}", other),
    }
}

#[test]
fn assignment_program_is_accepted() {
    assert!(parse_text("int f(){x=1+2;}").is_ok());
}

#[test]
fn assignment_cut_before_its_semicolon_fails_at_the_assignment_rule() {
    match parse_text("int f(){x=1+2") {
        Err(ParseError::UnexpectedEndOfInput { rule, .. }) => {
            assert_eq!(rule, minic_front::grammar::Rule::Assignment)
        }
        other => panic!("expected UnexpectedEndOfInput, got {:?}", other),
    }
}

#[test]
fn assignment_missing_semicolon_before_brace_is_an_unexpected_token() {
    match parse_text("int f(){x=1+2}") {
        Err(ParseError::UnexpectedToken { rule, actual, .. }) => {
            assert_eq!(rule, minic_front::grammar::Rule::Assignment);
            assert_eq!(actual, TokenKind::RightBracket);
        }
        other => panic!("expected UnexpectedToken, got {:?}", other),
    }
}

#[test]
fn parenthesized_expression_is_accepted() {
    assert!(parse_text("void f(){return(1==2);}").is_ok());
}

#[test]
fn while_loop_with_arguments_is_accepted() {
    assert!(parse_text("int loop(int a,void b){while(a!=0){a=a%2;}return a;}").is_ok());
}

#[test]
fn header_without_vartype_is_an_unexpected_token() {
    match parse_text("f(){return 1;}") {
        Err(ParseError::UnexpectedToken { rule, .. }) => {
            assert_eq!(rule, minic_front::grammar::Rule::Header)
        }
        other => panic!("expected UnexpectedToken, got {:?}", other),
    }
}

#[test]
fn empty_input_fails_for_want_of_input() {
    match parse_text("") {
        Err(ParseError::UnexpectedEndOfInput { rule, .. }) => {
            assert_eq!(rule, minic_front::grammar::Rule::Header)
        }
        other => panic!("expected UnexpectedEndOfInput, got {:?}", other),
    }
}

#[test]
fn empty_body_is_accepted() {
    assert!(parse_text("void f(){}").is_ok());
}
