//! The recognizer: a recursive-descent, single-lookahead acceptor over the
//! token stream, one procedure per nonterminal. Each procedure is proved to
//! return exactly what the corresponding grammar spec function says: the same
//! accept/reject decision, the same final cursor, and the same failure value.

use vstd::prelude::*;

use crate::grammar::{
    clip_pos, is_binop, is_statement_start, is_vartype, lemma_statement_bounds,
    spec_arg_decl, spec_assignment, spec_body, spec_eat, spec_expr_tail, spec_expression,
    spec_function, spec_header, spec_parse, spec_return_stmt, spec_statement, spec_statement_list,
    spec_term, spec_while_loop, Expected, Outcome, Rule, SpecError,
};
use crate::token::{Lex, TokenKind};

verus! {

/// The failure taxonomy as the recognizer reports it. Token positions are
/// 1-based; `consumed` and `total` are counts. Every failure is fatal: there
/// is no recovery and no partial acceptance.
#[derive(Debug, Clone, PartialEq, Eq)]
pub enum ParseError {
    UnexpectedToken { rule: Rule, position: usize, expected: Expected, actual: TokenKind },
    UnexpectedEndOfInput { rule: Rule, expected: Expected },
    TrailingTokens { consumed: usize, total: usize },
    UnclassifiableLexeme { lexeme: String },
}

impl View for ParseError {
    type V = SpecError;

    open spec fn view(&self) -> SpecError {
        match self {
            ParseError::UnexpectedToken { rule, position, expected, actual } => {
                SpecError::UnexpectedToken {
                    rule: *rule,
                    position: *position as int,
                    expected: *expected,
                    actual: *actual,
                }
            },
            ParseError::UnexpectedEndOfInput { rule, expected } => {
                SpecError::UnexpectedEndOfInput { rule: *rule, expected: *expected }
            },
            ParseError::TrailingTokens { consumed, total } => {
                SpecError::TrailingTokens { consumed: *consumed as int, total: *total as int }
            },
            ParseError::UnclassifiableLexeme { lexeme } => {
                SpecError::UnclassifiableLexeme { lexeme: lexeme@ }
            },
        }
    }
}

fn binop_kind(k: TokenKind) -> (b: bool)
    ensures
        b == is_binop(k),
{
    match k {
        TokenKind::BinOpPlus => true,
        TokenKind::BinOpMul => true,
        TokenKind::BinOpEq => true,
        TokenKind::BinOpNe => true,
        TokenKind::BinOpMod => true,
        _ => false,
    }
}

fn vartype_kind(k: TokenKind) -> (b: bool)
    ensures
        b == is_vartype(k),
{
    match k {
        TokenKind::VarTypeInt => true,
        TokenKind::VarTypeVoid => true,
        _ => false,
    }
}

fn statement_start_kind(k: TokenKind) -> (b: bool)
    ensures
        b == is_statement_start(k),
{
    match k {
        TokenKind::WhileKeyword => true,
        TokenKind::ReturnKeyword => true,
        TokenKind::Identifier => true,
        _ => false,
    }
}

/// The recognizer's whole state: the stream, produced once by the scanner,
/// and the cursor, advanced monotonically as rules match.
pub struct Parser {
    pub tokens: Vec<Lex>,
    pub pos: usize,
}

/// What every grammar procedure guarantees: the stream is untouched, the
/// cursor stays in range and never moves backwards, and result and cursor are
/// exactly what the grammar spec function `oc` says.
pub open spec fn rule_post(
    pre: Parser,
    post: Parser,
    r: Result<(), ParseError>,
    oc: Outcome,
) -> bool {
    &&& post.wf()
    &&& post.tokens@ == pre.tokens@
    &&& pre.pos <= post.pos
    &&& match oc {
        Outcome::Next(p) => r is Ok && post.pos == p,
        Outcome::Fail(e) => r matches Err(err) && err@ == e,
    }
}

impl Parser {
    /// The kind sequence of the stream: the only part the grammar reads.
    pub open spec fn kinds(&self) -> Seq<TokenKind> {
        self.tokens@.map_values(|l: Lex| l.kind)
    }

    /// The cursor never passes the end of the stream.
    pub open spec fn wf(&self) -> bool {
        self.pos <= self.tokens@.len()
    }

    pub fn new(tokens: Vec<Lex>) -> (p: Parser)
        ensures
            p.tokens@ == tokens@,
            p.pos == 0,
            p.wf(),
    {
        Parser { tokens, pos: 0 }
    }

    /// The single token of lookahead: the token under the cursor, if any.
    pub fn peek(&self) -> (r: Option<&Lex>)
        ensures
            self.pos < self.tokens@.len() ==> (r matches Some(l) && *l == self.tokens@[self.pos as int]),
            self.pos >= self.tokens@.len() ==> r is None,
    {
        if self.pos < self.tokens.len() {
            Some(&self.tokens[self.pos])
        } else {
            None
        }
    }

    /// Consumes one mandatory token of the given kind on behalf of `rule`, or
    /// fails without moving the cursor.
    pub fn eat(&mut self, rule: Rule, expected: TokenKind) -> (r: Result<(), ParseError>)
        requires
            old(self).wf(),
        ensures
            rule_post(
                *old(self),
                *final(self),
                r,
                spec_eat(old(self).kinds(), old(self).pos as int, rule, expected),
            ),
    {
        if self.pos < self.tokens.len() {
            let actual = self.tokens[self.pos].kind;
            if actual == expected {
                self.pos = self.pos + 1;
                Ok(())
            } else {
                Err(
                    ParseError::UnexpectedToken {
                        rule,
                        position: self.pos + 1,
                        expected: Expected::Kind(expected),
                        actual,
                    },
                )
            }
        } else {
            Err(ParseError::UnexpectedEndOfInput { rule, expected: Expected::Kind(expected) })
        }
    }

    pub fn parse_term(&mut self) -> (r: Result<(), ParseError>)
        requires
            old(self).wf(),
        ensures
            rule_post(
                *old(self),
                *final(self),
                r,
                spec_term(old(self).kinds(), old(self).pos as int),
            ),
    {
        if self.pos < self.tokens.len() {
            let k = self.tokens[self.pos].kind;
            if k == TokenKind::Identifier || k == TokenKind::Number {
                self.pos = self.pos + 1;
                Ok(())
            } else {
                Err(
                    ParseError::UnexpectedToken {
                        rule: Rule::Term,
                        position: self.pos + 1,
                        expected: Expected::Term,
                        actual: k,
                    },
                )
            }
        } else {
            Err(ParseError::UnexpectedEndOfInput { rule: Rule::Term, expected: Expected::Term })
        }
    }

    #[verifier::loop_isolation(false)]
    pub fn parse_expression(&mut self) -> (r: Result<(), ParseError>)
        requires
            old(self).wf(),
        ensures
            rule_post(
                *old(self),
                *final(self),
                r,
                spec_expression(old(self).kinds(), old(self).pos as int),
            ),
        decreases old(self).tokens@.len() - old(self).pos,
    {
        let ghost pre = *self;
        let ghost t = pre.kinds();
        let ghost start = pre.pos as int;
        if self.pos < self.tokens.len() && self.tokens[self.pos].kind == TokenKind::LeftParen {
            self.pos = self.pos + 1;
            let r1 = self.parse_expression();
            match r1 {
                Ok(()) => self.eat(Rule::Expression, TokenKind::RightParen),
                Err(e) => Err(e),
            }
        } else {
            let r1 = self.parse_term();
            if let Err(e) = r1 {
                return Err(e);
            }
            loop
                invariant
                    self.wf(),
                    self.tokens@ == pre.tokens@,
                    pre.pos <= self.pos,
                    spec_expression(t, start) == spec_expr_tail(t, self.pos as int),
                decreases self.tokens@.len() - self.pos,
            {
                if !(self.pos < self.tokens.len()) {
                    break ;
                }
                let k = self.tokens[self.pos].kind;
                if !binop_kind(k) {
                    break ;
                }
                self.pos = self.pos + 1;
                let r2 = self.parse_term();
                if let Err(e) = r2 {
                    return Err(e);
                }
            }
            Ok(())
        }
    }

    pub fn parse_return(&mut self) -> (r: Result<(), ParseError>)
        requires
            old(self).wf(),
        ensures
            rule_post(
                *old(self),
                *final(self),
                r,
                spec_return_stmt(old(self).kinds(), old(self).pos as int),
            ),
    {
        let r1 = self.eat(Rule::Return, TokenKind::ReturnKeyword);
        if let Err(e) = r1 {
            return Err(e);
        }
        let r2 = self.parse_expression();
        if let Err(e) = r2 {
            return Err(e);
        }
        self.eat(Rule::Return, TokenKind::Eol)
    }

    pub fn parse_assignment(&mut self) -> (r: Result<(), ParseError>)
        requires
            old(self).wf(),
        ensures
            rule_post(
                *old(self),
                *final(self),
                r,
                spec_assignment(old(self).kinds(), old(self).pos as int),
            ),
    {
        let r1 = self.eat(Rule::Assignment, TokenKind::Identifier);
        if let Err(e) = r1 {
            return Err(e);
        }
        let r2 = self.eat(Rule::Assignment, TokenKind::Equal);
        if let Err(e) = r2 {
            return Err(e);
        }
        let r3 = self.parse_expression();
        if let Err(e) = r3 {
            return Err(e);
        }
        self.eat(Rule::Assignment, TokenKind::Eol)
    }

    pub fn parse_while_loop(&mut self) -> (r: Result<(), ParseError>)
        requires
            old(self).wf(),
        ensures
            rule_post(
                *old(self),
                *final(self),
                r,
                spec_while_loop(old(self).kinds(), old(self).pos as int),
            ),
        decreases old(self).tokens@.len() - old(self).pos, 1int,
    {
        let ghost pre = *self;
        let ghost t = pre.kinds();
        let r1 = self.eat(Rule::WhileLoop, TokenKind::WhileKeyword);
        if let Err(e) = r1 {
            return Err(e);
        }
        let r2 = self.eat(Rule::WhileLoop, TokenKind::LeftParen);
        if let Err(e) = r2 {
            return Err(e);
        }
        let r3 = self.parse_expression();
        if let Err(e) = r3 {
            return Err(e);
        }
        let r4 = self.eat(Rule::WhileLoop, TokenKind::RightParen);
        if let Err(e) = r4 {
            return Err(e);
        }
        proof {
            assert(clip_pos(t.len() as int, pre.pos as int, self.pos as int) == self.pos as int);
        }
        self.parse_body()
    }

    pub fn parse_statement(&mut self) -> (r: Result<(), ParseError>)
        requires
            old(self).wf(),
        ensures
            rule_post(
                *old(self),
                *final(self),
                r,
                spec_statement(old(self).kinds(), old(self).pos as int),
            ),
        decreases old(self).tokens@.len() - old(self).pos, 2int,
    {
        if self.pos < self.tokens.len() {
            let k = self.tokens[self.pos].kind;
            if k == TokenKind::WhileKeyword {
                self.parse_while_loop()
            } else if k == TokenKind::ReturnKeyword {
                self.parse_return()
            } else if k == TokenKind::Identifier {
                self.parse_assignment()
            } else {
                Err(
                    ParseError::UnexpectedToken {
                        rule: Rule::Statement,
                        position: self.pos + 1,
                        expected: Expected::Statement,
                        actual: k,
                    },
                )
            }
        } else {
            Err(
                ParseError::UnexpectedEndOfInput {
                    rule: Rule::Statement,
                    expected: Expected::Statement,
                },
            )
        }
    }

    #[verifier::loop_isolation(false)]
    pub fn parse_statement_list(&mut self) -> (r: Result<(), ParseError>)
        requires
            old(self).wf(),
        ensures
            rule_post(
                *old(self),
                *final(self),
                r,
                spec_statement_list(old(self).kinds(), old(self).pos as int),
            ),
        decreases old(self).tokens@.len() - old(self).pos, 3int,
    {
        let ghost pre = *self;
        let ghost t = pre.kinds();
        let ghost start = pre.pos as int;
        if !(self.pos < self.tokens.len()) {
            return Err(
                ParseError::UnexpectedEndOfInput {
                    rule: Rule::Statement,
                    expected: Expected::Statement,
                },
            );
        }
        let r1 = self.parse_statement();
        if let Err(e) = r1 {
            return Err(e);
        }
        proof {
            lemma_statement_bounds(t, start);
        }
        loop
            invariant
                self.wf(),
                self.tokens@ == pre.tokens@,
                pre.pos <= self.pos,
                ({
                    let cur = self.pos as int;
                    if cur < t.len() && is_statement_start(t[cur]) {
                        spec_statement_list(t, start) == spec_statement_list(t, cur)
                    } else {
                        spec_statement_list(t, start) == Outcome::Next(cur)
                    }
                }),
            decreases self.tokens@.len() - self.pos,
        {
            if !(self.pos < self.tokens.len()) {
                break ;
            }
            let k = self.tokens[self.pos].kind;
            if !statement_start_kind(k) {
                break ;
            }
            let ghost cur = self.pos as int;
            let r2 = self.parse_statement();
            if let Err(e) = r2 {
                return Err(e);
            }
            proof {
                lemma_statement_bounds(t, cur);
            }
        }
        Ok(())
    }

    pub fn parse_body(&mut self) -> (r: Result<(), ParseError>)
        requires
            old(self).wf(),
        ensures
            rule_post(
                *old(self),
                *final(self),
                r,
                spec_body(old(self).kinds(), old(self).pos as int),
            ),
        decreases old(self).tokens@.len() - old(self).pos, 0int,
    {
        let r1 = self.eat(Rule::Body, TokenKind::LeftBracket);
        if let Err(e) = r1 {
            return Err(e);
        }
        if self.pos < self.tokens.len() && self.tokens[self.pos].kind != TokenKind::RightBracket {
            let r2 = self.parse_statement_list();
            if let Err(e) = r2 {
                return Err(e);
            }
        }
        self.eat(Rule::Body, TokenKind::RightBracket)
    }

    #[verifier::loop_isolation(false)]
    pub fn parse_arg_decl(&mut self) -> (r: Result<(), ParseError>)
        requires
            old(self).wf(),
        ensures
            rule_post(
                *old(self),
                *final(self),
                r,
                spec_arg_decl(old(self).kinds(), old(self).pos as int),
            ),
    {
        let ghost pre = *self;
        let ghost t = pre.kinds();
        let ghost start = pre.pos as int;
        loop
            invariant
                self.wf(),
                self.tokens@ == pre.tokens@,
                pre.pos <= self.pos,
                spec_arg_decl(t, start) == spec_arg_decl(t, self.pos as int),
            decreases self.tokens@.len() - self.pos,
        {
            if !(self.pos < self.tokens.len()) {
                return Err(
                    ParseError::UnexpectedEndOfInput {
                        rule: Rule::ArgDecl,
                        expected: Expected::VarType,
                    },
                );
            }
            let k = self.tokens[self.pos].kind;
            if !vartype_kind(k) {
                return Err(
                    ParseError::UnexpectedToken {
                        rule: Rule::ArgDecl,
                        position: self.pos + 1,
                        expected: Expected::VarType,
                        actual: k,
                    },
                );
            }
            self.pos = self.pos + 1;
            let r1 = self.eat(Rule::ArgDecl, TokenKind::Identifier);
            if let Err(e) = r1 {
                return Err(e);
            }
            if self.pos < self.tokens.len() && self.tokens[self.pos].kind == TokenKind::Comma {
                self.pos = self.pos + 1;
            } else {
                return Ok(());
            }
        }
    }

    pub fn parse_header(&mut self) -> (r: Result<(), ParseError>)
        requires
            old(self).wf(),
        ensures
            rule_post(
                *old(self),
                *final(self),
                r,
                spec_header(old(self).kinds(), old(self).pos as int),
            ),
    {
        if !(self.pos < self.tokens.len()) {
            return Err(
                ParseError::UnexpectedEndOfInput { rule: Rule::Header, expected: Expected::VarType },
            );
        }
        let k = self.tokens[self.pos].kind;
        if !vartype_kind(k) {
            return Err(
                ParseError::UnexpectedToken {
                    rule: Rule::Header,
                    position: self.pos + 1,
                    expected: Expected::VarType,
                    actual: k,
                },
            );
        }
        self.pos = self.pos + 1;
        let r1 = self.eat(Rule::Header, TokenKind::Identifier);
        if let Err(e) = r1 {
            return Err(e);
        }
        let r2 = self.eat(Rule::Header, TokenKind::LeftParen);
        if let Err(e) = r2 {
            return Err(e);
        }
        if self.pos < self.tokens.len() {
            let k2 = self.tokens[self.pos].kind;
            if vartype_kind(k2) {
                let r3 = self.parse_arg_decl();
                if let Err(e) = r3 {
                    return Err(e);
                }
            }
        }
        self.eat(Rule::Header, TokenKind::RightParen)
    }

    pub fn parse_function(&mut self) -> (r: Result<(), ParseError>)
        requires
            old(self).wf(),
        ensures
            rule_post(
                *old(self),
                *final(self),
                r,
                spec_function(old(self).kinds(), old(self).pos as int),
            ),
    {
        let r1 = self.parse_header();
        if let Err(e) = r1 {
            return Err(e);
        }
        self.parse_body()
    }

    /// Top-level acceptance: the whole stream is one function and every token
    /// is consumed. Accepts exactly the valid programs; on rejection the
    /// returned error is exactly the one the grammar assigns, and on
    /// acceptance the cursor ends at the stream's length.
    pub fn parse(&mut self) -> (r: Result<(), ParseError>)
        requires
            old(self).wf(),
            old(self).pos == 0,
        ensures
            final(self).wf(),
            final(self).tokens@ == old(self).tokens@,
            (match spec_parse(old(self).kinds()) {
                Outcome::Next(p) => r is Ok && final(self).pos == old(self).tokens@.len(),
                Outcome::Fail(e) => r matches Err(err) && err@ == e,
            }),
    {
        let r1 = self.parse_function();
        if let Err(e) = r1 {
            return Err(e);
        }
        if self.pos != self.tokens.len() {
            return Err(
                ParseError::TrailingTokens { consumed: self.pos, total: self.tokens.len() },
            );
        }
        Ok(())
    }
}

} // verus!
