//! The scanner's classification policy and maximal munch, on concrete runs.

use minic_front::scanner::{flush_alphanumeric, scan};
use minic_front::token::{classify, TokenKind};

#[test]
fn classification_covers_every_class_by_priority() {
    assert_eq!(classify("("), TokenKind::LeftParen);
    assert_eq!(classify(")"), TokenKind::RightParen);
    assert_eq!(classify("{"), TokenKind::LeftBracket);
    assert_eq!(classify("}"), TokenKind::RightBracket);
    assert_eq!(classify("while"), TokenKind::WhileKeyword);
    assert_eq!(classify("return"), TokenKind::ReturnKeyword);
    assert_eq!(classify("="), TokenKind::Equal);
    assert_eq!(classify(","), TokenKind::Comma);
    assert_eq!(classify(";"), TokenKind::Eol);
    assert_eq!(classify("int"), TokenKind::VarTypeInt);
    assert_eq!(classify("void"), TokenKind::VarTypeVoid);
    assert_eq!(classify("+"), TokenKind::BinOpPlus);
    assert_eq!(classify("*"), TokenKind::BinOpMul);
    assert_eq!(classify("=="), TokenKind::BinOpEq);
    assert_eq!(classify("!="), TokenKind::BinOpNe);
    assert_eq!(classify("%"), TokenKind::BinOpMod);
    assert_eq!(classify("0017"), TokenKind::Number);
    assert_eq!(classify("x17"), TokenKind::Identifier);
    assert_eq!(classify("whilst"), TokenKind::Identifier);
    assert_eq!(classify("ints"), TokenKind::Identifier);
}

#[test]
fn maximal_munch_scans_bang_equal_as_one_token() {
    let toks = scan("!=");
    assert_eq!(toks.len(), 1);
    assert_eq!(toks[0].kind, TokenKind::BinOpNe);
    assert_eq!(toks[0].lexeme, "!=");
}

#[test]
fn lone_equal_and_double_equal_are_distinguished() {
    let toks = scan("=");
    assert_eq!(toks.len(), 1);
    assert_eq!(toks[0].kind, TokenKind::Equal);

    let toks = scan("==");
    assert_eq!(toks.len(), 1);
    assert_eq!(toks[0].kind, TokenKind::BinOpEq);

    let toks = scan("===");
    assert_eq!(toks.len(), 2);
    assert_eq!(toks[0].kind, TokenKind::BinOpEq);
    assert_eq!(toks[1].kind, TokenKind::Equal);
}

#[test]
fn bang_not_followed_by_equal_stands_alone() {
    let toks = scan("! =");
    assert_eq!(toks.len(), 2);
    assert_eq!(toks[0].kind, TokenKind::Identifier);
    assert_eq!(toks[0].lexeme, "!");
    assert_eq!(toks[1].kind, TokenKind::Equal);
}

#[test]
fn whitespace_separates_runs_and_is_discarded() {
    let toks = scan("  int\tabc17\n42  ");
    let pairs: Vec<(TokenKind, String)> =
        toks.iter().map(|l| (l.kind, l.lexeme.clone())).collect();
    assert_eq!(
        pairs,
        vec![
            (TokenKind::VarTypeInt, "int".to_string()),
            (TokenKind::Identifier, "abc17".to_string()),
            (TokenKind::Number, "42".to_string()),
        ]
    );
}

#[test]
fn punctuation_flushes_the_pending_run() {
    let toks = scan("a=1;");
    let pairs: Vec<(TokenKind, String)> =
        toks.iter().map(|l| (l.kind, l.lexeme.clone())).collect();
    assert_eq!(
        pairs,
        vec![
            (TokenKind::Identifier, "a".to_string()),
            (TokenKind::Equal, "=".to_string()),
            (TokenKind::Number, "1".to_string()),
            (TokenKind::Eol, ";".to_string()),
        ]
    );
}

#[test]
fn flush_moves_a_nonempty_run_and_clears_it() {
    let mut cur = String::from("abc");
    let mut lexemes: Vec<String> = vec!["x".to_string()];
    flush_alphanumeric(&mut cur, &mut lexemes);
    assert_eq!(cur, "");
    assert_eq!(lexemes, vec!["x".to_string(), "abc".to_string()]);

    flush_alphanumeric(&mut cur, &mut lexemes);
    assert_eq!(lexemes, vec!["x".to_string(), "abc".to_string()]);
}

#[test]
fn empty_input_scans_to_nothing() {
    assert!(scan("").is_empty());
}
