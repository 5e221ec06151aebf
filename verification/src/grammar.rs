//! The grammar, stated as mathematics: one spec function per nonterminal,
//! each taking the token kinds and a cursor position and returning either the
//! position after the matched phrase or the exact failure. The recognizer in
//! `parser` is proved equivalent to these functions.

use vstd::prelude::*;

use crate::token::TokenKind;

verus! {

/// The grammar rule (nonterminal) active when a failure is reported.
#[derive(Debug, Clone, Copy, PartialEq, Eq, Structural)]
pub enum Rule {
    Function,
    Header,
    ArgDecl,
    Body,
    StatementList,
    Statement,
    WhileLoop,
    Return,
    Assignment,
    Expression,
    Term,
}

/// What the active rule required of the next token: one exact kind, or one of
/// the lookahead classes the grammar dispatches on.
#[derive(Debug, Clone, Copy, PartialEq, Eq, Structural)]
pub enum Expected {
    Kind(TokenKind),
    VarType,
    Statement,
    Term,
}

/// The failure taxonomy, at the mathematical level (positions as `int`).
/// Token positions in `UnexpectedToken` are 1-based, as in the diagnostics;
/// `consumed` and `total` in `TrailingTokens` are counts.
pub enum SpecError {
    UnexpectedToken { rule: Rule, position: int, expected: Expected, actual: TokenKind },
    UnexpectedEndOfInput { rule: Rule, expected: Expected },
    TrailingTokens { consumed: int, total: int },
    UnclassifiableLexeme { lexeme: Seq<char> },
}

/// What a grammar rule does with the cursor: advances it past the matched
/// phrase, or fails.
pub enum Outcome {
    Next(int),
    Fail(SpecError),
}

pub open spec fn is_vartype(k: TokenKind) -> bool {
    k == TokenKind::VarTypeInt || k == TokenKind::VarTypeVoid
}

pub open spec fn is_binop(k: TokenKind) -> bool {
    ||| k == TokenKind::BinOpPlus
    ||| k == TokenKind::BinOpMul
    ||| k == TokenKind::BinOpEq
    ||| k == TokenKind::BinOpNe
    ||| k == TokenKind::BinOpMod
}

pub open spec fn is_term_kind(k: TokenKind) -> bool {
    k == TokenKind::Identifier || k == TokenKind::Number
}

pub open spec fn is_statement_start(k: TokenKind) -> bool {
    k == TokenKind::WhileKeyword || k == TokenKind::ReturnKeyword || k == TokenKind::Identifier
}

/// One mandatory token of the given kind: the cursor advances past it, or the
/// rule fails on the spot.
pub open spec fn spec_eat(t: Seq<TokenKind>, pos: int, rule: Rule, expected: TokenKind) -> Outcome {
    if pos < t.len() {
        if t[pos] == expected {
            Outcome::Next(pos + 1)
        } else {
            Outcome::Fail(
                SpecError::UnexpectedToken {
                    rule,
                    position: pos + 1,
                    expected: Expected::Kind(expected),
                    actual: t[pos],
                },
            )
        }
    } else {
        Outcome::Fail(SpecError::UnexpectedEndOfInput { rule, expected: Expected::Kind(expected) })
    }
}

/// `term -> IDENTIFIER | NUMBER`
pub open spec fn spec_term(t: Seq<TokenKind>, pos: int) -> Outcome {
    if pos < t.len() {
        if is_term_kind(t[pos]) {
            Outcome::Next(pos + 1)
        } else {
            Outcome::Fail(
                SpecError::UnexpectedToken {
                    rule: Rule::Term,
                    position: pos + 1,
                    expected: Expected::Term,
                    actual: t[pos],
                },
            )
        }
    } else {
        Outcome::Fail(SpecError::UnexpectedEndOfInput { rule: Rule::Term, expected: Expected::Term })
    }
}

/// The `{BINOP term}` continuation of an expression: as long as the lookahead
/// is a binary operator, consume it and one more term.
pub open spec fn spec_expr_tail(t: Seq<TokenKind>, pos: int) -> Outcome
    decreases t.len() - pos,
{
    if pos < t.len() && is_binop(t[pos]) {
        if pos + 1 < t.len() {
            if is_term_kind(t[pos + 1]) {
                spec_expr_tail(t, pos + 2)
            } else {
                Outcome::Fail(
                    SpecError::UnexpectedToken {
                        rule: Rule::Term,
                        position: pos + 2,
                        expected: Expected::Term,
                        actual: t[pos + 1],
                    },
                )
            }
        } else {
            Outcome::Fail(
                SpecError::UnexpectedEndOfInput { rule: Rule::Term, expected: Expected::Term },
            )
        }
    } else {
        Outcome::Next(pos)
    }
}

/// `expression -> '(' expression ')' | term {BINOP term}`, the alternative
/// chosen by the single lookahead token.
pub open spec fn spec_expression(t: Seq<TokenKind>, pos: int) -> Outcome
    decreases t.len() - pos,
{
    if pos < t.len() && t[pos] == TokenKind::LeftParen {
        match spec_expression(t, pos + 1) {
            Outcome::Next(p) => spec_eat(t, p, Rule::Expression, TokenKind::RightParen),
            Outcome::Fail(e) => Outcome::Fail(e),
        }
    } else {
        match spec_term(t, pos) {
            Outcome::Next(p) => spec_expr_tail(t, p),
            Outcome::Fail(e) => Outcome::Fail(e),
        }
    }
}

/// `return -> 'return' expression ';'`
pub open spec fn spec_return_stmt(t: Seq<TokenKind>, pos: int) -> Outcome {
    match spec_eat(t, pos, Rule::Return, TokenKind::ReturnKeyword) {
        Outcome::Next(p) => match spec_expression(t, p) {
            Outcome::Next(q) => spec_eat(t, q, Rule::Return, TokenKind::Eol),
            Outcome::Fail(e) => Outcome::Fail(e),
        },
        Outcome::Fail(e) => Outcome::Fail(e),
    }
}

/// `assignment -> IDENTIFIER '=' expression ';'`
pub open spec fn spec_assignment(t: Seq<TokenKind>, pos: int) -> Outcome {
    match spec_eat(t, pos, Rule::Assignment, TokenKind::Identifier) {
        Outcome::Next(p1) => match spec_eat(t, p1, Rule::Assignment, TokenKind::Equal) {
            Outcome::Next(p2) => match spec_expression(t, p2) {
                Outcome::Next(p3) => spec_eat(t, p3, Rule::Assignment, TokenKind::Eol),
                Outcome::Fail(e) => Outcome::Fail(e),
            },
            Outcome::Fail(e) => Outcome::Fail(e),
        },
        Outcome::Fail(e) => Outcome::Fail(e),
    }
}

/// Keeps a cursor handed to a recursive rule inside `(pos, len]`. Every rule
/// in fact returns such a cursor (`lemma_*_bounds`), so this changes nothing;
/// it only makes the recursion in the definitions below visibly well-founded.
pub open spec fn clip_pos(len: int, pos: int, q: int) -> int {
    if pos < q && q <= len {
        q
    } else {
        len
    }
}

/// `while-loop -> 'while' '(' expression ')' body`
pub open spec fn spec_while_loop(t: Seq<TokenKind>, pos: int) -> Outcome
    decreases t.len() - pos, 1int,
{
    match spec_eat(t, pos, Rule::WhileLoop, TokenKind::WhileKeyword) {
        Outcome::Next(p1) => match spec_eat(t, p1, Rule::WhileLoop, TokenKind::LeftParen) {
            Outcome::Next(p2) => match spec_expression(t, p2) {
                Outcome::Next(p3) => match spec_eat(t, p3, Rule::WhileLoop, TokenKind::RightParen) {
                    Outcome::Next(p4) => spec_body(t, clip_pos(t.len() as int, pos, p4)),
                    Outcome::Fail(e) => Outcome::Fail(e),
                },
                Outcome::Fail(e) => Outcome::Fail(e),
            },
            Outcome::Fail(e) => Outcome::Fail(e),
        },
        Outcome::Fail(e) => Outcome::Fail(e),
    }
}

/// `statement -> while-loop | return | assignment`, chosen by the lookahead.
pub open spec fn spec_statement(t: Seq<TokenKind>, pos: int) -> Outcome
    decreases t.len() - pos, 2int,
{
    if pos < t.len() {
        if t[pos] == TokenKind::WhileKeyword {
            spec_while_loop(t, pos)
        } else if t[pos] == TokenKind::ReturnKeyword {
            spec_return_stmt(t, pos)
        } else if t[pos] == TokenKind::Identifier {
            spec_assignment(t, pos)
        } else {
            Outcome::Fail(
                SpecError::UnexpectedToken {
                    rule: Rule::Statement,
                    position: pos + 1,
                    expected: Expected::Statement,
                    actual: t[pos],
                },
            )
        }
    } else {
        Outcome::Fail(
            SpecError::UnexpectedEndOfInput {
                rule: Rule::Statement,
                expected: Expected::Statement,
            },
        )
    }
}

/// `statement-list -> statement {statement}`, continued while the lookahead
/// is WHILE, RETURN or IDENTIFIER.
pub open spec fn spec_statement_list(t: Seq<TokenKind>, pos: int) -> Outcome
    decreases t.len() - pos, 3int,
{
    if pos >= t.len() {
        Outcome::Fail(
            SpecError::UnexpectedEndOfInput {
                rule: Rule::Statement,
                expected: Expected::Statement,
            },
        )
    } else {
        match spec_statement(t, pos) {
            Outcome::Next(p) => {
                let p2 = clip_pos(t.len() as int, pos, p);
                if p2 < t.len() && is_statement_start(t[p2]) {
                    spec_statement_list(t, p2)
                } else {
                    Outcome::Next(p)
                }
            },
            Outcome::Fail(e) => Outcome::Fail(e),
        }
    }
}

/// `body -> '{' [statement-list] '}'`; the list is present exactly when the
/// token after `'{'` exists and is not `'}'`.
pub open spec fn spec_body(t: Seq<TokenKind>, pos: int) -> Outcome
    decreases t.len() - pos, 0int,
{
    if pos < t.len() {
        if t[pos] == TokenKind::LeftBracket {
            if pos + 1 < t.len() && t[pos + 1] != TokenKind::RightBracket {
                match spec_statement_list(t, pos + 1) {
                    Outcome::Next(p) => spec_eat(t, p, Rule::Body, TokenKind::RightBracket),
                    Outcome::Fail(e) => Outcome::Fail(e),
                }
            } else {
                spec_eat(t, pos + 1, Rule::Body, TokenKind::RightBracket)
            }
        } else {
            Outcome::Fail(
                SpecError::UnexpectedToken {
                    rule: Rule::Body,
                    position: pos + 1,
                    expected: Expected::Kind(TokenKind::LeftBracket),
                    actual: t[pos],
                },
            )
        }
    } else {
        Outcome::Fail(
            SpecError::UnexpectedEndOfInput {
                rule: Rule::Body,
                expected: Expected::Kind(TokenKind::LeftBracket),
            },
        )
    }
}

/// `arg-decl -> VARTYPE IDENTIFIER {',' VARTYPE IDENTIFIER}`
pub open spec fn spec_arg_decl(t: Seq<TokenKind>, pos: int) -> Outcome
    decreases t.len() - pos,
{
    if pos < t.len() {
        if is_vartype(t[pos]) {
            match spec_eat(t, pos + 1, Rule::ArgDecl, TokenKind::Identifier) {
                Outcome::Next(p) => {
                    if p < t.len() && t[p] == TokenKind::Comma {
                        spec_arg_decl(t, p + 1)
                    } else {
                        Outcome::Next(p)
                    }
                },
                Outcome::Fail(e) => Outcome::Fail(e),
            }
        } else {
            Outcome::Fail(
                SpecError::UnexpectedToken {
                    rule: Rule::ArgDecl,
                    position: pos + 1,
                    expected: Expected::VarType,
                    actual: t[pos],
                },
            )
        }
    } else {
        Outcome::Fail(
            SpecError::UnexpectedEndOfInput { rule: Rule::ArgDecl, expected: Expected::VarType },
        )
    }
}

/// `header -> VARTYPE IDENTIFIER '(' [arg-decl] ')'`; the argument list is
/// present exactly when the token after `'('` exists and is a VARTYPE.
pub open spec fn spec_header(t: Seq<TokenKind>, pos: int) -> Outcome {
    if pos < t.len() {
        if is_vartype(t[pos]) {
            match spec_eat(t, pos + 1, Rule::Header, TokenKind::Identifier) {
                Outcome::Next(p1) => match spec_eat(t, p1, Rule::Header, TokenKind::LeftParen) {
                    Outcome::Next(p2) => {
                        if p2 < t.len() && is_vartype(t[p2]) {
                            match spec_arg_decl(t, p2) {
                                Outcome::Next(p3) => spec_eat(
                                    t,
                                    p3,
                                    Rule::Header,
                                    TokenKind::RightParen,
                                ),
                                Outcome::Fail(e) => Outcome::Fail(e),
                            }
                        } else {
                            spec_eat(t, p2, Rule::Header, TokenKind::RightParen)
                        }
                    },
                    Outcome::Fail(e) => Outcome::Fail(e),
                },
                Outcome::Fail(e) => Outcome::Fail(e),
            }
        } else {
            Outcome::Fail(
                SpecError::UnexpectedToken {
                    rule: Rule::Header,
                    position: pos + 1,
                    expected: Expected::VarType,
                    actual: t[pos],
                },
            )
        }
    } else {
        Outcome::Fail(
            SpecError::UnexpectedEndOfInput { rule: Rule::Header, expected: Expected::VarType },
        )
    }
}

/// `function -> header body`
pub open spec fn spec_function(t: Seq<TokenKind>, pos: int) -> Outcome {
    match spec_header(t, pos) {
        Outcome::Next(p) => spec_body(t, p),
        Outcome::Fail(e) => Outcome::Fail(e),
    }
}

/// Top-level acceptance: one function, and every token consumed. Unconsumed
/// trailing tokens fail even though every rule matched.
pub open spec fn spec_parse(t: Seq<TokenKind>) -> Outcome {
    match spec_function(t, 0) {
        Outcome::Next(p) => if p == t.len() {
            Outcome::Next(p)
        } else {
            Outcome::Fail(SpecError::TrailingTokens { consumed: p, total: t.len() as int })
        },
        Outcome::Fail(e) => Outcome::Fail(e),
    }
}

// Every rule, given a cursor inside the sequence, returns a cursor inside the
// sequence, strictly advanced except for a possibly-empty operator tail. In
// particular every cursor handed to `clip_pos` in the definitions above is
// already in range, so the clip rewrites nothing.

pub proof fn lemma_expr_tail_bounds(t: Seq<TokenKind>, pos: int)
    requires
        0 <= pos <= t.len(),
    ensures
        spec_expr_tail(t, pos) matches Outcome::Next(p) ==> pos <= p <= t.len(),
    decreases t.len() - pos,
{
    if pos < t.len() && is_binop(t[pos]) {
        if pos + 1 < t.len() && is_term_kind(t[pos + 1]) {
            lemma_expr_tail_bounds(t, pos + 2);
        }
    }
}

pub proof fn lemma_expression_bounds(t: Seq<TokenKind>, pos: int)
    requires
        0 <= pos <= t.len(),
    ensures
        spec_expression(t, pos) matches Outcome::Next(p) ==> pos < p <= t.len(),
    decreases t.len() - pos,
{
    if pos < t.len() && t[pos] == TokenKind::LeftParen {
        lemma_expression_bounds(t, pos + 1);
    } else {
        if pos < t.len() && is_term_kind(t[pos]) {
            lemma_expr_tail_bounds(t, pos + 1);
        }
    }
}

pub proof fn lemma_return_stmt_bounds(t: Seq<TokenKind>, pos: int)
    requires
        0 <= pos <= t.len(),
    ensures
        spec_return_stmt(t, pos) matches Outcome::Next(p) ==> pos < p <= t.len(),
{
    if pos < t.len() && t[pos] == TokenKind::ReturnKeyword {
        lemma_expression_bounds(t, pos + 1);
    }
}

pub proof fn lemma_assignment_bounds(t: Seq<TokenKind>, pos: int)
    requires
        0 <= pos <= t.len(),
    ensures
        spec_assignment(t, pos) matches Outcome::Next(p) ==> pos < p <= t.len(),
{
    if pos + 1 < t.len() && t[pos] == TokenKind::Identifier && t[pos + 1] == TokenKind::Equal {
        lemma_expression_bounds(t, pos + 2);
    }
}

pub proof fn lemma_while_loop_bounds(t: Seq<TokenKind>, pos: int)
    requires
        0 <= pos <= t.len(),
    ensures
        spec_while_loop(t, pos) matches Outcome::Next(p) ==> pos < p <= t.len(),
    decreases t.len() - pos, 1int,
{
    if pos + 1 < t.len() && t[pos] == TokenKind::WhileKeyword && t[pos + 1]
        == TokenKind::LeftParen {
        lemma_expression_bounds(t, pos + 2);
        if let Outcome::Next(p3) = spec_expression(t, pos + 2) {
            if p3 < t.len() && t[p3] == TokenKind::RightParen {
                assert(clip_pos(t.len() as int, pos, p3 + 1) == p3 + 1);
                lemma_body_bounds(t, p3 + 1);
            }
        }
    }
}

pub proof fn lemma_statement_bounds(t: Seq<TokenKind>, pos: int)
    requires
        0 <= pos <= t.len(),
    ensures
        spec_statement(t, pos) matches Outcome::Next(p) ==> pos < p <= t.len(),
    decreases t.len() - pos, 2int,
{
    if pos < t.len() {
        if t[pos] == TokenKind::WhileKeyword {
            lemma_while_loop_bounds(t, pos);
        } else if t[pos] == TokenKind::ReturnKeyword {
            lemma_return_stmt_bounds(t, pos);
        } else if t[pos] == TokenKind::Identifier {
            lemma_assignment_bounds(t, pos);
        }
    }
}

pub proof fn lemma_statement_list_bounds(t: Seq<TokenKind>, pos: int)
    requires
        0 <= pos <= t.len(),
    ensures
        spec_statement_list(t, pos) matches Outcome::Next(p) ==> pos < p <= t.len(),
    decreases t.len() - pos, 3int,
{
    if pos < t.len() {
        lemma_statement_bounds(t, pos);
        if let Outcome::Next(p) = spec_statement(t, pos) {
            assert(clip_pos(t.len() as int, pos, p) == p);
            if p < t.len() && is_statement_start(t[p]) {
                lemma_statement_list_bounds(t, p);
            }
        }
    }
}

pub proof fn lemma_body_bounds(t: Seq<TokenKind>, pos: int)
    requires
        0 <= pos <= t.len(),
    ensures
        spec_body(t, pos) matches Outcome::Next(p) ==> pos < p <= t.len(),
    decreases t.len() - pos, 0int,
{
    if pos < t.len() && t[pos] == TokenKind::LeftBracket {
        if pos + 1 < t.len() && t[pos + 1] != TokenKind::RightBracket {
            lemma_statement_list_bounds(t, pos + 1);
        }
    }
}

pub proof fn lemma_arg_decl_bounds(t: Seq<TokenKind>, pos: int)
    requires
        0 <= pos <= t.len(),
    ensures
        spec_arg_decl(t, pos) matches Outcome::Next(p) ==> pos < p <= t.len(),
    decreases t.len() - pos,
{
    if pos + 1 < t.len() && is_vartype(t[pos]) && t[pos + 1] == TokenKind::Identifier {
        if pos + 2 < t.len() && t[pos + 2] == TokenKind::Comma {
            lemma_arg_decl_bounds(t, pos + 3);
        }
    }
}

pub proof fn lemma_header_bounds(t: Seq<TokenKind>, pos: int)
    requires
        0 <= pos <= t.len(),
    ensures
        spec_header(t, pos) matches Outcome::Next(p) ==> pos < p <= t.len(),
{
    if pos + 2 < t.len() && is_vartype(t[pos]) && t[pos + 1] == TokenKind::Identifier && t[pos + 2]
        == TokenKind::LeftParen {
        if pos + 3 < t.len() && is_vartype(t[pos + 3]) {
            lemma_arg_decl_bounds(t, pos + 3);
        }
    }
}

pub proof fn lemma_function_bounds(t: Seq<TokenKind>, pos: int)
    requires
        0 <= pos <= t.len(),
    ensures
        spec_function(t, pos) matches Outcome::Next(p) ==> pos < p <= t.len(),
{
    lemma_header_bounds(t, pos);
    if let Outcome::Next(p) = spec_header(t, pos) {
        lemma_body_bounds(t, p);
    }
}

} // verus!
