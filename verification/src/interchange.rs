//! The interchange text protocol between the two stages: one line per token,
//! `<KIND_NAME> <lexeme>`. The lexeme field distinguishes the VARTYPE
//! sub-forms and the five BINOP spellings; a kind name or BINOP spelling
//! outside the known set is an `UnclassifiableLexeme` failure.

use vstd::prelude::*;
use vstd::string::StrSliceExecFns;
use vstd::string::StringExecFns;

use crate::grammar::SpecError;
use crate::parser::ParseError;
use crate::token::{spec_display_name, Lex, LexView, TokenKind};

verus! {

/// The interchange line for one token: the kind's display name, one space,
/// the exact lexeme, one newline.
pub open spec fn spec_encode(lv: LexView) -> Seq<char> {
    spec_display_name(lv.kind) + seq![' '] + lv.lexeme + seq!['\n']
}

pub fn encode_token(l: &Lex) -> (r: String)
    ensures
        r@ == spec_encode(l@),
{
    let mut out = String::new();
    out.append(l.kind.display_name());
    out.append(" ");
    out.append(l.lexeme.as_str());
    out.append("\n");
    proof {
        reveal_strlit(" ");
        reveal_strlit("\n");
        assert(out@ =~= spec_encode(l@));
    }
    out
}

/// The first space at or after `i`, or the length when there is none.
pub open spec fn spec_first_space(s: Seq<char>, i: int) -> int
    decreases s.len() - i,
{
    if i < 0 || i >= s.len() {
        s.len() as int
    } else if s[i] == ' ' {
        i
    } else {
        spec_first_space(s, i + 1)
    }
}

/// The kind-name field: everything before the first space, or the whole line.
pub open spec fn spec_name_of(s: Seq<char>) -> Seq<char> {
    s.take(spec_first_space(s, 0))
}

/// The lexeme field: everything after the first space, or empty.
pub open spec fn spec_lexeme_of(s: Seq<char>) -> Seq<char> {
    if spec_first_space(s, 0) < s.len() {
        s.skip(spec_first_space(s, 0) + 1)
    } else {
        Seq::<char>::empty()
    }
}

/// The kind a name-and-lexeme pair decodes to. VARTYPE and BINOP read the
/// lexeme to pick the sub-form; a BINOP lexeme or a kind name outside the
/// known set cannot be classified.
pub open spec fn spec_decode_kind(name: Seq<char>, lex: Seq<char>) -> Result<
    TokenKind,
    SpecError,
> {
    if name == "LEFT_PARENTHESIS"@ {
        Ok(TokenKind::LeftParen)
    } else if name == "RIGHT_PARENTHESIS"@ {
        Ok(TokenKind::RightParen)
    } else if name == "LEFT_BRACKET"@ {
        Ok(TokenKind::LeftBracket)
    } else if name == "RIGHT_BRACKET"@ {
        Ok(TokenKind::RightBracket)
    } else if name == "WHILE_KEYWORD"@ {
        Ok(TokenKind::WhileKeyword)
    } else if name == "RETURN_KEYWORD"@ {
        Ok(TokenKind::ReturnKeyword)
    } else if name == "EQUAL"@ {
        Ok(TokenKind::Equal)
    } else if name == "COMMA"@ {
        Ok(TokenKind::Comma)
    } else if name == "EOL"@ {
        Ok(TokenKind::Eol)
    } else if name == "VARTYPE"@ {
        if lex == "void"@ {
            Ok(TokenKind::VarTypeVoid)
        } else {
            Ok(TokenKind::VarTypeInt)
        }
    } else if name == "IDENTIFIER"@ {
        Ok(TokenKind::Identifier)
    } else if name == "BINOP"@ {
        if lex == "+"@ {
            Ok(TokenKind::BinOpPlus)
        } else if lex == "*"@ {
            Ok(TokenKind::BinOpMul)
        } else if lex == "=="@ {
            Ok(TokenKind::BinOpEq)
        } else if lex == "!="@ {
            Ok(TokenKind::BinOpNe)
        } else if lex == "%"@ {
            Ok(TokenKind::BinOpMod)
        } else {
            Err(SpecError::UnclassifiableLexeme { lexeme: lex })
        }
    } else if name == "NUMBER"@ {
        Ok(TokenKind::Number)
    } else {
        Err(SpecError::UnclassifiableLexeme { lexeme: name })
    }
}

/// What one interchange line decodes to: the kind from the name field, the
/// lexeme from the rest of the line.
pub open spec fn spec_decode_line(s: Seq<char>) -> Result<LexView, SpecError> {
    match spec_decode_kind(spec_name_of(s), spec_lexeme_of(s)) {
        Ok(k) => Ok(LexView { kind: k, lexeme: spec_lexeme_of(s) }),
        Err(e) => Err(e),
    }
}

fn str_eq(a: &str, b: &str) -> (r: bool)
    ensures
        r == (a@ == b@),
{
    let n: usize = a.unicode_len();
    if n != b.unicode_len() {
        return false;
    }
    let mut i: usize = 0;
    while i < n
        invariant
            i <= n,
            n == a@.len(),
            n == b@.len(),
            forall|j: int| 0 <= j < i ==> a@[j] == b@[j],
        decreases n - i,
    {
        if a.get_char(i) != b.get_char(i) {
            return false;
        }
        i += 1;
    }
    proof {
        assert(a@ =~= b@);
    }
    true
}

#[verifier::loop_isolation(false)]
fn find_space(line: &str) -> (i: usize)
    ensures
        i as int == spec_first_space(line@, 0),
        i <= line@.len(),
{
    let n: usize = line.unicode_len();
    let mut i: usize = 0;
    while i < n
        invariant
            i <= n,
            spec_first_space(line@, 0) == spec_first_space(line@, i as int),
        decreases n - i,
    {
        if line.get_char(i) == ' ' {
            return i;
        }
        i += 1;
    }
    i
}

fn decode_kind(name: &str, lexeme: &str) -> (r: Result<TokenKind, ParseError>)
    ensures
        (match (r, spec_decode_kind(name@, lexeme@)) {
            (Ok(k), Ok(sk)) => k == sk,
            (Err(e), Err(se)) => e@ == se,
            _ => false,
        }),
{
    if str_eq(name, "LEFT_PARENTHESIS") {
        Ok(TokenKind::LeftParen)
    } else if str_eq(name, "RIGHT_PARENTHESIS") {
        Ok(TokenKind::RightParen)
    } else if str_eq(name, "LEFT_BRACKET") {
        Ok(TokenKind::LeftBracket)
    } else if str_eq(name, "RIGHT_BRACKET") {
        Ok(TokenKind::RightBracket)
    } else if str_eq(name, "WHILE_KEYWORD") {
        Ok(TokenKind::WhileKeyword)
    } else if str_eq(name, "RETURN_KEYWORD") {
        Ok(TokenKind::ReturnKeyword)
    } else if str_eq(name, "EQUAL") {
        Ok(TokenKind::Equal)
    } else if str_eq(name, "COMMA") {
        Ok(TokenKind::Comma)
    } else if str_eq(name, "EOL") {
        Ok(TokenKind::Eol)
    } else if str_eq(name, "VARTYPE") {
        if str_eq(lexeme, "void") {
            Ok(TokenKind::VarTypeVoid)
        } else {
            Ok(TokenKind::VarTypeInt)
        }
    } else if str_eq(name, "IDENTIFIER") {
        Ok(TokenKind::Identifier)
    } else if str_eq(name, "BINOP") {
        if str_eq(lexeme, "+") {
            Ok(TokenKind::BinOpPlus)
        } else if str_eq(lexeme, "*") {
            Ok(TokenKind::BinOpMul)
        } else if str_eq(lexeme, "==") {
            Ok(TokenKind::BinOpEq)
        } else if str_eq(lexeme, "!=") {
            Ok(TokenKind::BinOpNe)
        } else if str_eq(lexeme, "%") {
            Ok(TokenKind::BinOpMod)
        } else {
            Err(ParseError::UnclassifiableLexeme { lexeme: String::from_str(lexeme) })
        }
    } else if str_eq(name, "NUMBER") {
        Ok(TokenKind::Number)
    } else {
        Err(ParseError::UnclassifiableLexeme { lexeme: String::from_str(name) })
    }
}

/// Decodes one interchange line into a token, or fails on a kind name or
/// BINOP spelling outside the known set.
pub fn decode_line(line: &str) -> (r: Result<Lex, ParseError>)
    ensures
        (match (r, spec_decode_line(line@)) {
            (Ok(l), Ok(lv)) => l@ == lv,
            (Err(e), Err(se)) => e@ == se,
            _ => false,
        }),
{
    let n: usize = line.unicode_len();
    let sp = find_space(line);
    let name = line.substring_char(0, sp);
    let lexeme = if sp < n {
        line.substring_char(sp + 1, n)
    } else {
        ""
    };
    proof {
        reveal_strlit("");
        assert(name@ == spec_name_of(line@));
        assert(lexeme@ =~= spec_lexeme_of(line@));
    }
    match decode_kind(name, lexeme) {
        Ok(kind) => Ok(Lex { kind, lexeme: String::from_str(lexeme) }),
        Err(e) => Err(e),
    }
}

} // verus!
