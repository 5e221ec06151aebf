//! The interchange text protocol: encoding tokens as lines and reading the
//! lines back.

use minic_front::interchange::{decode_line, encode_token};
use minic_front::parser::ParseError;
use minic_front::token::{Lex, TokenKind};

#[test]
fn encode_writes_name_space_lexeme_newline() {
    let l = Lex { kind: TokenKind::VarTypeInt, lexeme: "int".to_string() };
    assert_eq!(encode_token(&l), "VARTYPE int\n");
    let l = Lex { kind: TokenKind::BinOpNe, lexeme: "!=".to_string() };
    assert_eq!(encode_token(&l), "BINOP !=\n");
    let l = Lex { kind: TokenKind::LeftParen, lexeme: "(".to_string() };
    assert_eq!(encode_token(&l), "LEFT_PARENTHESIS (\n");
}

#[test]
fn display_names_are_many_to_one() {
    assert_eq!(TokenKind::VarTypeInt.display_name(), "VARTYPE");
    assert_eq!(TokenKind::VarTypeVoid.display_name(), "VARTYPE");
    assert_eq!(TokenKind::BinOpPlus.display_name(), "BINOP");
    assert_eq!(TokenKind::BinOpMod.display_name(), "BINOP");
    assert_eq!(TokenKind::WhileKeyword.display_name(), "WHILE_KEYWORD");
    assert_eq!(TokenKind::Eol.display_name(), "EOL");
}

#[test]
fn decode_reads_the_vartype_subform_from_the_lexeme() {
    let l = decode_line("VARTYPE void").unwrap();
    assert_eq!(l.kind, TokenKind::VarTypeVoid);
    assert_eq!(l.lexeme, "void");
    let l = decode_line("VARTYPE int").unwrap();
    assert_eq!(l.kind, TokenKind::VarTypeInt);
    // any lexeme but "void" selects the int sub-form
    let l = decode_line("VARTYPE").unwrap();
    assert_eq!(l.kind, TokenKind::VarTypeInt);
    assert_eq!(l.lexeme, "");
}

#[test]
fn decode_reads_the_binop_form_from_the_lexeme() {
    assert_eq!(decode_line("BINOP +").unwrap().kind, TokenKind::BinOpPlus);
    assert_eq!(decode_line("BINOP *").unwrap().kind, TokenKind::BinOpMul);
    assert_eq!(decode_line("BINOP ==").unwrap().kind, TokenKind::BinOpEq);
    assert_eq!(decode_line("BINOP !=").unwrap().kind, TokenKind::BinOpNe);
    assert_eq!(decode_line("BINOP %").unwrap().kind, TokenKind::BinOpMod);
}

#[test]
fn unknown_binop_spelling_is_unclassifiable() {
    match decode_line("BINOP &") {
        Err(ParseError::UnclassifiableLexeme { lexeme }) => assert_eq!(lexeme, "&"),
        other => panic!("expected UnclassifiableLexeme, got {:?}", other),
    }
}

#[test]
fn unknown_kind_name_is_unclassifiable() {
    match decode_line("SOMETHING x") {
        Err(ParseError::UnclassifiableLexeme { lexeme }) => assert_eq!(lexeme, "SOMETHING"),
        other => panic!("expected UnclassifiableLexeme, got {:?}", other),
    }
}

#[test]
fn scanned_tokens_survive_the_line_round_trip() {
    for tok in minic_front::scanner::scan("int f(int x){while(x!=0){x=x%2;}return x;}") {
        let line = encode_token(&tok);
        let back = decode_line(line.trim_end_matches('\n')).unwrap();
        assert_eq!(back.kind, tok.kind);
        assert_eq!(back.lexeme, tok.lexeme);
    }
}
