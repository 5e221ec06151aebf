//! Laws of the recognizer as a whole: a valid program is accepted in full; a
//! valid program with its last token cut off fails for want of input; a valid
//! program with one token too many fails for the trailing token. Each law is
//! proved by induction over the grammar, one lemma per nonterminal.

use vstd::prelude::*;

use crate::grammar::{
    clip_pos, is_binop, is_statement_start, is_term_kind, is_vartype, lemma_arg_decl_bounds,
    lemma_body_bounds, lemma_expr_tail_bounds, lemma_expression_bounds, lemma_header_bounds, lemma_statement_bounds,
    lemma_statement_list_bounds, spec_arg_decl, spec_assignment, spec_body,
    spec_expr_tail, spec_expression, spec_function, spec_header, spec_parse, spec_return_stmt,
    spec_statement, spec_statement_list, spec_while_loop, Outcome, SpecError,
};
use crate::token::TokenKind;

verus! {

/// The outcome is a failure for want of input.
pub open spec fn fails_eof(oc: Outcome) -> bool {
    oc matches Outcome::Fail(e) && e is UnexpectedEndOfInput
}

// How each rule behaves on `t.take(k)` when on `t` it matched up to `p`.
// Cutting the sequence anywhere strictly before `p` leaves the rule starved:
// it fails for want of input, except that a rule with an optional
// continuation (an operator tail, a statement list, an argument list) may
// instead stop cleanly at exactly `k`. Cutting at or after `p` changes
// nothing, since the rule reads no token beyond `p`.

pub proof fn lemma_take_expr_tail(t: Seq<TokenKind>, pos: int, p: int, k: int)
    requires
        0 <= pos <= t.len(),
        spec_expr_tail(t, pos) == Outcome::Next(p),
        pos <= k <= t.len(),
    ensures
        p <= k ==> spec_expr_tail(t.take(k), pos) == Outcome::Next(p),
        k < p ==> spec_expr_tail(t.take(k), pos) == Outcome::Next(k) || fails_eof(
            spec_expr_tail(t.take(k), pos),
        ),
    decreases t.len() - pos,
{
    assert(t.take(k).len() == k);
    if pos < t.len() && is_binop(t[pos]) {
        // the tail consumed one operator and one term, then continued at pos + 2
        if pos + 1 < t.len() && is_term_kind(t[pos + 1]) {
            lemma_expr_tail_bounds(t, pos + 2);
            if k >= pos + 2 {
                lemma_take_expr_tail(t, pos + 2, p, k);
            }
        }
    }
}

pub proof fn lemma_take_expression(t: Seq<TokenKind>, pos: int, p: int, k: int)
    requires
        0 <= pos <= t.len(),
        spec_expression(t, pos) == Outcome::Next(p),
        pos <= k <= t.len(),
    ensures
        p <= k ==> spec_expression(t.take(k), pos) == Outcome::Next(p),
        k < p ==> spec_expression(t.take(k), pos) == Outcome::Next(k) || fails_eof(
            spec_expression(t.take(k), pos),
        ),
    decreases t.len() - pos,
{
    assert(t.take(k).len() == k);
    lemma_expression_bounds(t, pos);
    if pos < t.len() && t[pos] == TokenKind::LeftParen {
        if let Outcome::Next(q) = spec_expression(t, pos + 1) {
            lemma_expression_bounds(t, pos + 1);
            if k >= pos + 1 {
                lemma_take_expression(t, pos + 1, q, k);
            }
        }
    } else {
        if pos < t.len() && is_term_kind(t[pos]) {
            lemma_expr_tail_bounds(t, pos + 1);
            if k >= pos + 1 {
                lemma_take_expr_tail(t, pos + 1, p, k);
            }
        }
    }
}

pub proof fn lemma_take_return_stmt(t: Seq<TokenKind>, pos: int, p: int, k: int)
    requires
        0 <= pos <= t.len(),
        spec_return_stmt(t, pos) == Outcome::Next(p),
        pos <= k <= t.len(),
    ensures
        p <= k ==> spec_return_stmt(t.take(k), pos) == Outcome::Next(p),
        k < p ==> fails_eof(spec_return_stmt(t.take(k), pos)),
{
    assert(t.take(k).len() == k);
    if pos < t.len() && t[pos] == TokenKind::ReturnKeyword {
        if let Outcome::Next(q) = spec_expression(t, pos + 1) {
            lemma_expression_bounds(t, pos + 1);
            if k >= pos + 1 {
                lemma_take_expression(t, pos + 1, q, k);
            }
        }
    }
}

pub proof fn lemma_take_assignment(t: Seq<TokenKind>, pos: int, p: int, k: int)
    requires
        0 <= pos <= t.len(),
        spec_assignment(t, pos) == Outcome::Next(p),
        pos <= k <= t.len(),
    ensures
        p <= k ==> spec_assignment(t.take(k), pos) == Outcome::Next(p),
        k < p ==> fails_eof(spec_assignment(t.take(k), pos)),
{
    assert(t.take(k).len() == k);
    if pos + 1 < t.len() && t[pos] == TokenKind::Identifier && t[pos + 1] == TokenKind::Equal {
        if let Outcome::Next(q) = spec_expression(t, pos + 2) {
            lemma_expression_bounds(t, pos + 2);
            if k >= pos + 2 {
                lemma_take_expression(t, pos + 2, q, k);
            }
        }
    }
}

pub proof fn lemma_take_while_loop(t: Seq<TokenKind>, pos: int, p: int, k: int)
    requires
        0 <= pos <= t.len(),
        spec_while_loop(t, pos) == Outcome::Next(p),
        pos <= k <= t.len(),
    ensures
        p <= k ==> spec_while_loop(t.take(k), pos) == Outcome::Next(p),
        k < p ==> fails_eof(spec_while_loop(t.take(k), pos)),
    decreases t.len() - pos, 1int,
{
    assert(t.take(k).len() == k);
    if pos + 1 < t.len() && t[pos] == TokenKind::WhileKeyword && t[pos + 1]
        == TokenKind::LeftParen {
        if let Outcome::Next(p3) = spec_expression(t, pos + 2) {
            lemma_expression_bounds(t, pos + 2);
            if k >= pos + 2 {
                lemma_take_expression(t, pos + 2, p3, k);
            }
            if p3 < t.len() && t[p3] == TokenKind::RightParen {
                assert(clip_pos(t.len() as int, pos, p3 + 1) == p3 + 1);
                if let Outcome::Next(pb) = spec_body(t, p3 + 1) {
                    lemma_body_bounds(t, p3 + 1);
                    if k >= p3 + 1 {
                        assert(clip_pos(k, pos, p3 + 1) == p3 + 1);
                        lemma_take_body(t, p3 + 1, pb, k);
                    }
                }
            }
        }
    }
}

pub proof fn lemma_take_statement(t: Seq<TokenKind>, pos: int, p: int, k: int)
    requires
        0 <= pos <= t.len(),
        spec_statement(t, pos) == Outcome::Next(p),
        pos <= k <= t.len(),
    ensures
        p <= k ==> spec_statement(t.take(k), pos) == Outcome::Next(p),
        k < p ==> fails_eof(spec_statement(t.take(k), pos)),
    decreases t.len() - pos, 2int,
{
    assert(t.take(k).len() == k);
    if pos < t.len() {
        if t[pos] == TokenKind::WhileKeyword {
            lemma_take_while_loop(t, pos, p, k);
        } else if t[pos] == TokenKind::ReturnKeyword {
            lemma_take_return_stmt(t, pos, p, k);
        } else if t[pos] == TokenKind::Identifier {
            lemma_take_assignment(t, pos, p, k);
        }
    }
}

pub proof fn lemma_take_statement_list(t: Seq<TokenKind>, pos: int, p: int, k: int)
    requires
        0 <= pos <= t.len(),
        spec_statement_list(t, pos) == Outcome::Next(p),
        pos <= k <= t.len(),
    ensures
        p <= k ==> spec_statement_list(t.take(k), pos) == Outcome::Next(p),
        k < p ==> spec_statement_list(t.take(k), pos) == Outcome::Next(k) || fails_eof(
            spec_statement_list(t.take(k), pos),
        ),
    decreases t.len() - pos, 3int,
{
    assert(t.take(k).len() == k);
    if pos < t.len() {
        if let Outcome::Next(q) = spec_statement(t, pos) {
            lemma_statement_bounds(t, pos);
            assert(clip_pos(t.len() as int, pos, q) == q);
            lemma_take_statement(t, pos, q, k);
            if k >= q {
                assert(clip_pos(k, pos, q) == q);
            }
            if q < t.len() && is_statement_start(t[q]) {
                lemma_statement_list_bounds(t, q);
                if k >= q {
                    lemma_take_statement_list(t, q, p, k);
                }
            }
        }
    }
}

pub proof fn lemma_take_body(t: Seq<TokenKind>, pos: int, p: int, k: int)
    requires
        0 <= pos <= t.len(),
        spec_body(t, pos) == Outcome::Next(p),
        pos <= k <= t.len(),
    ensures
        p <= k ==> spec_body(t.take(k), pos) == Outcome::Next(p),
        k < p ==> fails_eof(spec_body(t.take(k), pos)),
    decreases t.len() - pos, 0int,
{
    assert(t.take(k).len() == k);
    if pos < t.len() && t[pos] == TokenKind::LeftBracket {
        if pos + 1 < t.len() && t[pos + 1] != TokenKind::RightBracket {
            if let Outcome::Next(q) = spec_statement_list(t, pos + 1) {
                lemma_statement_list_bounds(t, pos + 1);
                if k >= pos + 1 {
                    lemma_take_statement_list(t, pos + 1, q, k);
                }
            }
        }
    }
}

pub proof fn lemma_take_arg_decl(t: Seq<TokenKind>, pos: int, p: int, k: int)
    requires
        0 <= pos <= t.len(),
        spec_arg_decl(t, pos) == Outcome::Next(p),
        pos <= k <= t.len(),
    ensures
        p <= k ==> spec_arg_decl(t.take(k), pos) == Outcome::Next(p),
        k < p ==> spec_arg_decl(t.take(k), pos) == Outcome::Next(k) || fails_eof(
            spec_arg_decl(t.take(k), pos),
        ),
    decreases t.len() - pos,
{
    assert(t.take(k).len() == k);
    if pos + 1 < t.len() && is_vartype(t[pos]) && t[pos + 1] == TokenKind::Identifier {
        if pos + 2 < t.len() && t[pos + 2] == TokenKind::Comma {
            lemma_arg_decl_bounds(t, pos + 3);
            if k >= pos + 3 {
                lemma_take_arg_decl(t, pos + 3, p, k);
            }
        }
    }
}

pub proof fn lemma_take_header(t: Seq<TokenKind>, pos: int, p: int, k: int)
    requires
        0 <= pos <= t.len(),
        spec_header(t, pos) == Outcome::Next(p),
        pos <= k <= t.len(),
    ensures
        p <= k ==> spec_header(t.take(k), pos) == Outcome::Next(p),
        k < p ==> fails_eof(spec_header(t.take(k), pos)),
{
    assert(t.take(k).len() == k);
    if pos + 2 < t.len() && is_vartype(t[pos]) && t[pos + 1] == TokenKind::Identifier && t[pos + 2]
        == TokenKind::LeftParen {
        if pos + 3 < t.len() && is_vartype(t[pos + 3]) {
            if let Outcome::Next(q) = spec_arg_decl(t, pos + 3) {
                lemma_arg_decl_bounds(t, pos + 3);
                if k >= pos + 3 {
                    lemma_take_arg_decl(t, pos + 3, q, k);
                }
            }
        }
    }
}

pub proof fn lemma_take_function(t: Seq<TokenKind>, pos: int, p: int, k: int)
    requires
        0 <= pos <= t.len(),
        spec_function(t, pos) == Outcome::Next(p),
        pos <= k <= t.len(),
    ensures
        p <= k ==> spec_function(t.take(k), pos) == Outcome::Next(p),
        k < p ==> fails_eof(spec_function(t.take(k), pos)),
{
    assert(t.take(k).len() == k);
    if let Outcome::Next(h) = spec_header(t, pos) {
        lemma_header_bounds(t, pos);
        lemma_take_header(t, pos, h, k);
        lemma_body_bounds(t, h);
        if k >= h {
            if let Outcome::Next(pb) = spec_body(t, h) {
                lemma_take_body(t, h, pb, k);
            }
        }
    }
}

/// A valid program cut short by its final token is rejected for want of
/// input: removing the last token of any stream that the grammar accepts in
/// full turns acceptance into `UnexpectedEndOfInput`.
pub proof fn lemma_drop_last_token_fails_eof(t: Seq<TokenKind>)
    requires
        spec_function(t, 0) == Outcome::Next(t.len() as int),
        t.len() > 0,
    ensures
        spec_parse(t.take(t.len() - 1)) matches Outcome::Fail(e) && e is UnexpectedEndOfInput,
{
    lemma_take_function(t, 0, t.len() as int, t.len() - 1);
    assert(fails_eof(spec_function(t.take(t.len() - 1), 0)));
}

// How each rule behaves on `t.push(x)` when on `t` it matched up to `p`: the
// rule reads tokens below `p` and at most the one lookahead token at `p`, so
// appending a token beyond those changes nothing. Rules that end on an
// optional continuation need the lookahead at `p` to exist already; rules
// that end on a mandatory token do not.

pub proof fn lemma_ext_expr_tail(t: Seq<TokenKind>, pos: int, p: int, x: TokenKind)
    requires
        0 <= pos <= t.len(),
        spec_expr_tail(t, pos) == Outcome::Next(p),
        p < t.len(),
    ensures
        spec_expr_tail(t.push(x), pos) == Outcome::Next(p),
    decreases t.len() - pos,
{
    let t2 = t.push(x);
    if pos < t.len() && is_binop(t[pos]) {
        assert(t2[pos] == t[pos]);
        if pos + 1 < t.len() && is_term_kind(t[pos + 1]) {
            assert(t2[pos + 1] == t[pos + 1]);
            lemma_ext_expr_tail(t, pos + 2, p, x);
        }
    } else {
        assert(t2[pos] == t[pos]);
    }
}

pub proof fn lemma_ext_expression(t: Seq<TokenKind>, pos: int, p: int, x: TokenKind)
    requires
        0 <= pos <= t.len(),
        spec_expression(t, pos) == Outcome::Next(p),
        p < t.len(),
    ensures
        spec_expression(t.push(x), pos) == Outcome::Next(p),
    decreases t.len() - pos,
{
    let t2 = t.push(x);
    if pos < t.len() && t[pos] == TokenKind::LeftParen {
        assert(t2[pos] == t[pos]);
        if let Outcome::Next(q) = spec_expression(t, pos + 1) {
            lemma_expression_bounds(t, pos + 1);
            if q < t.len() && t[q] == TokenKind::RightParen {
                lemma_ext_expression(t, pos + 1, q, x);
                assert(t2[q] == t[q]);
            }
        }
    } else {
        if pos < t.len() && is_term_kind(t[pos]) {
            assert(t2[pos] == t[pos]);
            lemma_ext_expr_tail(t, pos + 1, p, x);
        }
    }
}

pub proof fn lemma_ext_return_stmt(t: Seq<TokenKind>, pos: int, p: int, x: TokenKind)
    requires
        0 <= pos <= t.len(),
        spec_return_stmt(t, pos) == Outcome::Next(p),
    ensures
        spec_return_stmt(t.push(x), pos) == Outcome::Next(p),
{
    let t2 = t.push(x);
    if pos < t.len() && t[pos] == TokenKind::ReturnKeyword {
        assert(t2[pos] == t[pos]);
        if let Outcome::Next(q) = spec_expression(t, pos + 1) {
            lemma_expression_bounds(t, pos + 1);
            if q < t.len() && t[q] == TokenKind::Eol {
                lemma_ext_expression(t, pos + 1, q, x);
                assert(t2[q] == t[q]);
            }
        }
    }
}

pub proof fn lemma_ext_assignment(t: Seq<TokenKind>, pos: int, p: int, x: TokenKind)
    requires
        0 <= pos <= t.len(),
        spec_assignment(t, pos) == Outcome::Next(p),
    ensures
        spec_assignment(t.push(x), pos) == Outcome::Next(p),
{
    let t2 = t.push(x);
    if pos + 1 < t.len() && t[pos] == TokenKind::Identifier && t[pos + 1] == TokenKind::Equal {
        assert(t2[pos] == t[pos]);
        assert(t2[pos + 1] == t[pos + 1]);
        if let Outcome::Next(q) = spec_expression(t, pos + 2) {
            lemma_expression_bounds(t, pos + 2);
            if q < t.len() && t[q] == TokenKind::Eol {
                lemma_ext_expression(t, pos + 2, q, x);
                assert(t2[q] == t[q]);
            }
        }
    }
}

pub proof fn lemma_ext_while_loop(t: Seq<TokenKind>, pos: int, p: int, x: TokenKind)
    requires
        0 <= pos <= t.len(),
        spec_while_loop(t, pos) == Outcome::Next(p),
    ensures
        spec_while_loop(t.push(x), pos) == Outcome::Next(p),
    decreases t.len() - pos, 1int,
{
    let t2 = t.push(x);
    if pos + 1 < t.len() && t[pos] == TokenKind::WhileKeyword && t[pos + 1]
        == TokenKind::LeftParen {
        assert(t2[pos] == t[pos]);
        assert(t2[pos + 1] == t[pos + 1]);
        if let Outcome::Next(p3) = spec_expression(t, pos + 2) {
            lemma_expression_bounds(t, pos + 2);
            if p3 < t.len() && t[p3] == TokenKind::RightParen {
                lemma_ext_expression(t, pos + 2, p3, x);
                assert(t2[p3] == t[p3]);
                assert(clip_pos(t.len() as int, pos, p3 + 1) == p3 + 1);
                assert(clip_pos(t2.len() as int, pos, p3 + 1) == p3 + 1);
                if let Outcome::Next(pb) = spec_body(t, p3 + 1) {
                    lemma_body_bounds(t, p3 + 1);
                    lemma_ext_body(t, p3 + 1, pb, x);
                }
            }
        }
    }
}

pub proof fn lemma_ext_statement(t: Seq<TokenKind>, pos: int, p: int, x: TokenKind)
    requires
        0 <= pos <= t.len(),
        spec_statement(t, pos) == Outcome::Next(p),
    ensures
        spec_statement(t.push(x), pos) == Outcome::Next(p),
    decreases t.len() - pos, 2int,
{
    let t2 = t.push(x);
    if pos < t.len() {
        assert(t2[pos] == t[pos]);
        if t[pos] == TokenKind::WhileKeyword {
            lemma_ext_while_loop(t, pos, p, x);
        } else if t[pos] == TokenKind::ReturnKeyword {
            lemma_ext_return_stmt(t, pos, p, x);
        } else if t[pos] == TokenKind::Identifier {
            lemma_ext_assignment(t, pos, p, x);
        }
    }
}

pub proof fn lemma_ext_statement_list(t: Seq<TokenKind>, pos: int, p: int, x: TokenKind)
    requires
        0 <= pos <= t.len(),
        spec_statement_list(t, pos) == Outcome::Next(p),
        p < t.len(),
    ensures
        spec_statement_list(t.push(x), pos) == Outcome::Next(p),
    decreases t.len() - pos, 3int,
{
    let t2 = t.push(x);
    if pos < t.len() {
        if let Outcome::Next(q) = spec_statement(t, pos) {
            lemma_statement_bounds(t, pos);
            assert(clip_pos(t.len() as int, pos, q) == q);
            lemma_ext_statement(t, pos, q, x);
            assert(clip_pos(t2.len() as int, pos, q) == q);
            if q < t.len() && is_statement_start(t[q]) {
                assert(t2[q] == t[q]);
                lemma_ext_statement_list(t, q, p, x);
            } else {
                assert(t2[q] == t[q]);
            }
        }
    }
}

pub proof fn lemma_ext_body(t: Seq<TokenKind>, pos: int, p: int, x: TokenKind)
    requires
        0 <= pos <= t.len(),
        spec_body(t, pos) == Outcome::Next(p),
    ensures
        spec_body(t.push(x), pos) == Outcome::Next(p),
    decreases t.len() - pos, 0int,
{
    let t2 = t.push(x);
    if pos < t.len() && t[pos] == TokenKind::LeftBracket {
        assert(t2[pos] == t[pos]);
        if pos + 1 < t.len() && t[pos + 1] != TokenKind::RightBracket {
            assert(t2[pos + 1] == t[pos + 1]);
            if let Outcome::Next(q) = spec_statement_list(t, pos + 1) {
                lemma_statement_list_bounds(t, pos + 1);
                if q < t.len() && t[q] == TokenKind::RightBracket {
                    lemma_ext_statement_list(t, pos + 1, q, x);
                    assert(t2[q] == t[q]);
                }
            }
        } else {
            if pos + 1 < t.len() {
                assert(t2[pos + 1] == t[pos + 1]);
            }
        }
    }
}

pub proof fn lemma_ext_arg_decl(t: Seq<TokenKind>, pos: int, p: int, x: TokenKind)
    requires
        0 <= pos <= t.len(),
        spec_arg_decl(t, pos) == Outcome::Next(p),
        p < t.len(),
    ensures
        spec_arg_decl(t.push(x), pos) == Outcome::Next(p),
    decreases t.len() - pos,
{
    let t2 = t.push(x);
    if pos + 1 < t.len() && is_vartype(t[pos]) && t[pos + 1] == TokenKind::Identifier {
        assert(t2[pos] == t[pos]);
        assert(t2[pos + 1] == t[pos + 1]);
        if pos + 2 < t.len() && t[pos + 2] == TokenKind::Comma {
            assert(t2[pos + 2] == t[pos + 2]);
            lemma_ext_arg_decl(t, pos + 3, p, x);
        } else {
            assert(t2[pos + 2] == t[pos + 2]);
        }
    }
}

pub proof fn lemma_ext_header(t: Seq<TokenKind>, pos: int, p: int, x: TokenKind)
    requires
        0 <= pos <= t.len(),
        spec_header(t, pos) == Outcome::Next(p),
    ensures
        spec_header(t.push(x), pos) == Outcome::Next(p),
{
    let t2 = t.push(x);
    if pos + 2 < t.len() && is_vartype(t[pos]) && t[pos + 1] == TokenKind::Identifier && t[pos + 2]
        == TokenKind::LeftParen {
        assert(t2[pos] == t[pos]);
        assert(t2[pos + 1] == t[pos + 1]);
        assert(t2[pos + 2] == t[pos + 2]);
        if pos + 3 < t.len() && is_vartype(t[pos + 3]) {
            assert(t2[pos + 3] == t[pos + 3]);
            if let Outcome::Next(q) = spec_arg_decl(t, pos + 3) {
                lemma_arg_decl_bounds(t, pos + 3);
                if q < t.len() && t[q] == TokenKind::RightParen {
                    lemma_ext_arg_decl(t, pos + 3, q, x);
                    assert(t2[q] == t[q]);
                }
            }
        } else {
            if pos + 3 < t.len() {
                assert(t2[pos + 3] == t[pos + 3]);
            }
        }
    }
}

/// A valid program with one extra trailing token appended is rejected with
/// `TrailingTokens`: every grammar rule still matches the same prefix, and
/// the top level then finds one token unconsumed.
pub proof fn lemma_extra_token_fails_trailing(t: Seq<TokenKind>, extra: TokenKind)
    requires
        spec_function(t, 0) == Outcome::Next(t.len() as int),
    ensures
        spec_parse(t.push(extra)) == Outcome::Fail(
            SpecError::TrailingTokens { consumed: t.len() as int, total: t.len() as int + 1 },
        ),
{
    if let Outcome::Next(h) = spec_header(t, 0) {
        lemma_header_bounds(t, 0);
        lemma_body_bounds(t, h);
        lemma_ext_header(t, 0, h, extra);
        lemma_ext_body(t, h, t.len() as int, extra);
    }
    assert(spec_function(t.push(extra), 0) == Outcome::Next(t.len() as int));
}

/// A token stream that the grammar derives in full is accepted at the top
/// level, the cursor ending exactly at the stream's length; through the
/// contract of `Parser::parse`, the recognizer then returns `Ok` with every
/// token consumed.
pub proof fn lemma_valid_stream_accepted(t: Seq<TokenKind>)
    requires
        spec_function(t, 0) == Outcome::Next(t.len() as int),
    ensures
        spec_parse(t) == Outcome::Next(t.len() as int),
{
}


} // verus!
