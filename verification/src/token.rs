//! The token model: kinds, lexemes, and the classification policy that maps
//! an atomic lexeme string to its kind.

use vstd::prelude::*;

verus! {

/// Every lexical category of the language. The five binary operators and the
/// two variable-type spellings stay distinguishable here even though they
/// share a display name.
#[derive(Debug, Clone, Copy, PartialEq, Eq, Structural)]
pub enum TokenKind {
    LeftParen,
    RightParen,
    LeftBracket,
    RightBracket,
    WhileKeyword,
    ReturnKeyword,
    Equal,
    Comma,
    Eol,
    VarTypeInt,
    VarTypeVoid,
    Identifier,
    BinOpPlus,
    BinOpMul,
    BinOpNe,
    BinOpEq,
    BinOpMod,
    Number,
}

/// A classified lexeme: the kind together with the exact matched text.
#[derive(Debug, Clone)]
pub struct Lex {
    pub kind: TokenKind,
    pub lexeme: String,
}

/// The mathematical value of a `Lex`: its kind and the character sequence of
/// its lexeme.
pub struct LexView {
    pub kind: TokenKind,
    pub lexeme: Seq<char>,
}

impl View for Lex {
    type V = LexView;

    open spec fn view(&self) -> LexView {
        LexView { kind: self.kind, lexeme: self.lexeme@ }
    }
}

/// A decimal digit.
pub open spec fn is_digit_char(c: char) -> bool {
    48 <= c as u32 && c as u32 <= 57
}

/// Every character of `s` is a decimal digit.
pub open spec fn spec_is_number(s: Seq<char>) -> bool {
    forall|i: int| 0 <= i < s.len() ==> is_digit_char(#[trigger] s[i])
}

/// The fixed keyword, punctuation and operator spellings, each mapped to its
/// kind; `None` for any other string. This is priority levels (1) and (2) of
/// the classification policy.
pub open spec fn spec_fixed_spelling(s: Seq<char>) -> Option<TokenKind> {
    if s.len() == 1 {
        if s[0] == '(' {
            Some(TokenKind::LeftParen)
        } else if s[0] == ')' {
            Some(TokenKind::RightParen)
        } else if s[0] == '{' {
            Some(TokenKind::LeftBracket)
        } else if s[0] == '}' {
            Some(TokenKind::RightBracket)
        } else if s[0] == '=' {
            Some(TokenKind::Equal)
        } else if s[0] == ',' {
            Some(TokenKind::Comma)
        } else if s[0] == ';' {
            Some(TokenKind::Eol)
        } else if s[0] == '+' {
            Some(TokenKind::BinOpPlus)
        } else if s[0] == '*' {
            Some(TokenKind::BinOpMul)
        } else if s[0] == '%' {
            Some(TokenKind::BinOpMod)
        } else {
            None
        }
    } else if s.len() == 2 {
        if s[0] == '=' && s[1] == '=' {
            Some(TokenKind::BinOpEq)
        } else if s[0] == '!' && s[1] == '=' {
            Some(TokenKind::BinOpNe)
        } else {
            None
        }
    } else if s.len() == 3 {
        if s[0] == 'i' && s[1] == 'n' && s[2] == 't' {
            Some(TokenKind::VarTypeInt)
        } else {
            None
        }
    } else if s.len() == 4 {
        if s[0] == 'v' && s[1] == 'o' && s[2] == 'i' && s[3] == 'd' {
            Some(TokenKind::VarTypeVoid)
        } else {
            None
        }
    } else if s.len() == 5 {
        if s[0] == 'w' && s[1] == 'h' && s[2] == 'i' && s[3] == 'l' && s[4] == 'e' {
            Some(TokenKind::WhileKeyword)
        } else {
            None
        }
    } else if s.len() == 6 {
        if s[0] == 'r' && s[1] == 'e' && s[2] == 't' && s[3] == 'u' && s[4] == 'r' && s[5] == 'n' {
            Some(TokenKind::ReturnKeyword)
        } else {
            None
        }
    } else {
        None
    }
}

/// The classification policy, in strict priority order: a fixed spelling
/// first, then the all-digit pattern, and Identifier as the only remaining
/// fallback.
pub open spec fn spec_classify(s: Seq<char>) -> TokenKind {
    match spec_fixed_spelling(s) {
        Some(k) => k,
        None => if spec_is_number(s) {
            TokenKind::Number
        } else {
            TokenKind::Identifier
        },
    }
}

/// Exact match of `s` against the fixed spellings.
fn fixed_spelling(s: &str) -> (r: Option<TokenKind>)
    ensures
        r == spec_fixed_spelling(s@),
{
    let n: usize = s.unicode_len();
    if n == 1 {
        let c = s.get_char(0);
        if c == '(' {
            Some(TokenKind::LeftParen)
        } else if c == ')' {
            Some(TokenKind::RightParen)
        } else if c == '{' {
            Some(TokenKind::LeftBracket)
        } else if c == '}' {
            Some(TokenKind::RightBracket)
        } else if c == '=' {
            Some(TokenKind::Equal)
        } else if c == ',' {
            Some(TokenKind::Comma)
        } else if c == ';' {
            Some(TokenKind::Eol)
        } else if c == '+' {
            Some(TokenKind::BinOpPlus)
        } else if c == '*' {
            Some(TokenKind::BinOpMul)
        } else if c == '%' {
            Some(TokenKind::BinOpMod)
        } else {
            None
        }
    } else if n == 2 {
        let c0 = s.get_char(0);
        let c1 = s.get_char(1);
        if c0 == '=' && c1 == '=' {
            Some(TokenKind::BinOpEq)
        } else if c0 == '!' && c1 == '=' {
            Some(TokenKind::BinOpNe)
        } else {
            None
        }
    } else if n == 3 {
        if s.get_char(0) == 'i' && s.get_char(1) == 'n' && s.get_char(2) == 't' {
            Some(TokenKind::VarTypeInt)
        } else {
            None
        }
    } else if n == 4 {
        if s.get_char(0) == 'v' && s.get_char(1) == 'o' && s.get_char(2) == 'i' && s.get_char(3)
            == 'd' {
            Some(TokenKind::VarTypeVoid)
        } else {
            None
        }
    } else if n == 5 {
        if s.get_char(0) == 'w' && s.get_char(1) == 'h' && s.get_char(2) == 'i' && s.get_char(3)
            == 'l' && s.get_char(4) == 'e' {
            Some(TokenKind::WhileKeyword)
        } else {
            None
        }
    } else if n == 6 {
        if s.get_char(0) == 'r' && s.get_char(1) == 'e' && s.get_char(2) == 't' && s.get_char(3)
            == 'u' && s.get_char(4) == 'r' && s.get_char(5) == 'n' {
            Some(TokenKind::ReturnKeyword)
        } else {
            None
        }
    } else {
        None
    }
}

/// Whether every character of `s` is a decimal digit.
fn digits_only(s: &str) -> (b: bool)
    ensures
        b == spec_is_number(s@),
{
    let n: usize = s.unicode_len();
    let mut i: usize = 0;
    while i < n
        invariant
            0 <= i <= n,
            n == s@.len(),
            forall|j: int| 0 <= j < i ==> is_digit_char(#[trigger] s@[j]),
        decreases n - i,
    {
        let c = s.get_char(i);
        let u = c as u32;
        if !(48 <= u && u <= 57) {
            return false;
        }
        i += 1;
    }
    true
}

/// Classifies one atomic lexeme. Total: every string gets exactly one kind,
/// chosen by the priority order of `spec_classify`.
pub fn classify(s: &str) -> (k: TokenKind)
    ensures
        k == spec_classify(s@),
{
    match fixed_spelling(s) {
        Some(k) => k,
        None => if digits_only(s) {
            TokenKind::Number
        } else {
            TokenKind::Identifier
        },
    }
}

/// The fixed display name of a kind. Many-to-one: all binary operators show
/// as BINOP, both variable-type sub-forms as VARTYPE.
pub open spec fn spec_display_name(k: TokenKind) -> Seq<char> {
    match k {
        TokenKind::LeftParen => "LEFT_PARENTHESIS"@,
        TokenKind::RightParen => "RIGHT_PARENTHESIS"@,
        TokenKind::LeftBracket => "LEFT_BRACKET"@,
        TokenKind::RightBracket => "RIGHT_BRACKET"@,
        TokenKind::WhileKeyword => "WHILE_KEYWORD"@,
        TokenKind::ReturnKeyword => "RETURN_KEYWORD"@,
        TokenKind::Equal => "EQUAL"@,
        TokenKind::Comma => "COMMA"@,
        TokenKind::Eol => "EOL"@,
        TokenKind::VarTypeInt => "VARTYPE"@,
        TokenKind::VarTypeVoid => "VARTYPE"@,
        TokenKind::Identifier => "IDENTIFIER"@,
        TokenKind::BinOpPlus => "BINOP"@,
        TokenKind::BinOpMul => "BINOP"@,
        TokenKind::BinOpNe => "BINOP"@,
        TokenKind::BinOpEq => "BINOP"@,
        TokenKind::BinOpMod => "BINOP"@,
        TokenKind::Number => "NUMBER"@,
    }
}

impl TokenKind {
    /// The display name used in the interchange format.
    pub fn display_name(&self) -> (r: &'static str)
        ensures
            r@ == spec_display_name(*self),
    {
        match self {
            TokenKind::LeftParen => "LEFT_PARENTHESIS",
            TokenKind::RightParen => "RIGHT_PARENTHESIS",
            TokenKind::LeftBracket => "LEFT_BRACKET",
            TokenKind::RightBracket => "RIGHT_BRACKET",
            TokenKind::WhileKeyword => "WHILE_KEYWORD",
            TokenKind::ReturnKeyword => "RETURN_KEYWORD",
            TokenKind::Equal => "EQUAL",
            TokenKind::Comma => "COMMA",
            TokenKind::Eol => "EOL",
            TokenKind::VarTypeInt => "VARTYPE",
            TokenKind::VarTypeVoid => "VARTYPE",
            TokenKind::Identifier => "IDENTIFIER",
            TokenKind::BinOpPlus => "BINOP",
            TokenKind::BinOpMul => "BINOP",
            TokenKind::BinOpNe => "BINOP",
            TokenKind::BinOpEq => "BINOP",
            TokenKind::BinOpMod => "BINOP",
            TokenKind::Number => "NUMBER",
        }
    }
}

/// Classification is total and deterministic: for every lexeme exactly one of
/// the classes (fixed keyword/punctuation/operator spelling, including the
/// two variable-type sub-forms; all-digit number; identifier) decides the
/// kind, chosen by the priority order of the policy. A fixed spelling is
/// never an all-digit run, so the classes named here are disjoint.
pub proof fn lemma_classification_total(s: Seq<char>)
    ensures
        spec_fixed_spelling(s) matches Some(k) ==> spec_classify(s) == k && !spec_is_number(s),
        spec_fixed_spelling(s) is None && spec_is_number(s) ==> spec_classify(s)
            == TokenKind::Number,
        spec_fixed_spelling(s) is None && !spec_is_number(s) ==> spec_classify(s)
            == TokenKind::Identifier,
{
    if spec_fixed_spelling(s) is Some {
        assert(!is_digit_char(s[0]));
    }
}

} // verus!
