//! The scanner: one left-to-right pass over the characters, with a pending
//! run of non-whitespace, non-punctuation characters. Whitespace flushes the
//! run; a punctuation or operator character flushes it and then consumes one
//! or two characters, with maximal munch for `==` and `!=`; the end of the
//! input flushes what remains. Each atomic lexeme is then classified.

use vstd::prelude::*;

use crate::token::{spec_classify, Lex, LexView};

verus! {

/// The Unicode White_Space characters: the set `char::is_whitespace` tests.
pub open spec fn is_space_char(c: char) -> bool {
    let u = c as u32;
    ||| (9 <= u && u <= 13)
    ||| u == 32
    ||| u == 0x85
    ||| u == 0xa0
    ||| u == 0x1680
    ||| (0x2000 <= u && u <= 0x200a)
    ||| u == 0x2028
    ||| u == 0x2029
    ||| u == 0x202f
    ||| u == 0x205f
    ||| u == 0x3000
}

/// The punctuation and operator characters the scanner recognizes.
pub open spec fn is_punct_char(c: char) -> bool {
    ||| c == '('
    ||| c == ')'
    ||| c == '{'
    ||| c == '}'
    ||| c == '='
    ||| c == ','
    ||| c == ';'
    ||| c == '+'
    ||| c == '*'
    ||| c == '!'
    ||| c == '%'
}

fn is_space(c: char) -> (b: bool)
    ensures
        b == is_space_char(c),
{
    let u = c as u32;
    (9 <= u && u <= 13) || u == 32 || u == 0x85 || u == 0xa0 || u == 0x1680 || (0x2000 <= u && u
        <= 0x200a) || u == 0x2028 || u == 0x2029 || u == 0x202f || u == 0x205f || u == 0x3000
}

fn is_punct(c: char) -> (b: bool)
    ensures
        b == is_punct_char(c),
{
    c == '(' || c == ')' || c == '{' || c == '}' || c == '=' || c == ',' || c == ';' || c == '+'
        || c == '*' || c == '!' || c == '%'
}

/// The pending run as the scanner flushes it: one lexeme if it is non-empty,
/// nothing otherwise.
pub open spec fn flush_run(cur: Seq<char>) -> Seq<Seq<char>> {
    if cur.len() == 0 {
        seq![]
    } else {
        seq![cur]
    }
}

/// The atomic lexemes of `s` from position `i` on, with `cur` the pending
/// run accumulated so far.
pub open spec fn spec_lexemes_from(s: Seq<char>, i: int, cur: Seq<char>) -> Seq<Seq<char>>
    decreases s.len() - i,
{
    if i < 0 || i >= s.len() {
        flush_run(cur)
    } else {
        let c = s[i];
        if is_space_char(c) {
            flush_run(cur) + spec_lexemes_from(s, i + 1, Seq::<char>::empty())
        } else if c == '=' || c == '!' {
            if i + 1 < s.len() && s[i + 1] == '=' {
                flush_run(cur) + seq![seq![c, '=']] + spec_lexemes_from(
                    s,
                    i + 2,
                    Seq::<char>::empty(),
                )
            } else {
                flush_run(cur) + seq![seq![c]] + spec_lexemes_from(s, i + 1, Seq::<char>::empty())
            }
        } else if is_punct_char(c) {
            flush_run(cur) + seq![seq![c]] + spec_lexemes_from(s, i + 1, Seq::<char>::empty())
        } else {
            spec_lexemes_from(s, i + 1, cur.push(c))
        }
    }
}

/// The atomic lexemes of the whole input.
pub open spec fn spec_lexemes(s: Seq<char>) -> Seq<Seq<char>> {
    spec_lexemes_from(s, 0, Seq::<char>::empty())
}

/// The scanner's output on input `s`: each atomic lexeme paired with its
/// kind under the classification policy.
pub open spec fn spec_scan(s: Seq<char>) -> Seq<LexView> {
    spec_lexemes(s).map_values(|x: Seq<char>| LexView { kind: spec_classify(x), lexeme: x })
}

/// Relies on `String::push`: appends exactly the one character at the end.
#[verifier::external_body]
fn push_char(s: &mut String, c: char)
    ensures
        final(s)@ == old(s)@.push(c),
{
    s.push(c);
}

/// Flushes the pending run: a non-empty run moves into `lexemes` as one
/// lexeme and the run becomes empty; an empty run changes nothing.
pub fn flush_alphanumeric(cur: &mut String, lexemes: &mut Vec<String>)
    ensures
        final(cur)@ == Seq::<char>::empty(),
        final(lexemes)@.map_values(|s: String| s@) == old(lexemes)@.map_values(|s: String| s@)
            + flush_run(old(cur)@),
{
    if cur.as_str().unicode_len() > 0 {
        let run = cur.clone();
        lexemes.push(run);
        *cur = String::new();
        proof {
            assert(final(lexemes)@.map_values(|s: String| s@) =~= old(lexemes)@.map_values(
                |s: String| s@,
            ) + flush_run(old(cur)@));
        }
    } else {
        proof {
            assert(final(lexemes)@.map_values(|s: String| s@) =~= old(lexemes)@.map_values(
                |s: String| s@,
            ) + flush_run(old(cur)@));
        }
    }
}

/// The splitting pass: the input's atomic lexemes, in order.
#[verifier::loop_isolation(false)]
pub fn scan_lexemes(input: &str) -> (r: Vec<String>)
    ensures
        r@.map_values(|s: String| s@) == spec_lexemes(input@),
{
    let n: usize = input.unicode_len();
    let mut lexemes: Vec<String> = Vec::new();
    let mut cur: String = String::new();
    let mut i: usize = 0;
    while i < n
        invariant
            i <= n,
            spec_lexemes(input@) == lexemes@.map_values(|s: String| s@) + spec_lexemes_from(
                input@,
                i as int,
                cur@,
            ),
        decreases n - i,
    {
        let ghost lex0 = lexemes@.map_values(|s: String| s@);
        let ghost cur0 = cur@;
        let ghost i0 = i as int;
        let c = input.get_char(i);
        if is_space(c) {
            flush_alphanumeric(&mut cur, &mut lexemes);
            i = i + 1;
            proof {
                assert(lexemes@.map_values(|s: String| s@) + spec_lexemes_from(
                    input@,
                    i as int,
                    cur@,
                ) =~= lex0 + spec_lexemes_from(input@, i0, cur0));
            }
        } else if c == '=' || c == '!' {
            flush_alphanumeric(&mut cur, &mut lexemes);
            let ghost lexf = lexemes@.map_values(|s: String| s@);
            let two = i + 1 < n && input.get_char(i + 1) == '=';
            let mut op = String::new();
            push_char(&mut op, c);
            if two {
                push_char(&mut op, '=');
            }
            proof {
                if two {
                    assert(op@ =~= seq![c, '=']);
                } else {
                    assert(op@ =~= seq![c]);
                }
            }
            lexemes.push(op);
            i = if two {
                i + 2
            } else {
                i + 1
            };
            proof {
                assert(lexemes@.map_values(|s: String| s@) =~= lexf + seq![op@]);
                assert(spec_lexemes_from(input@, i0, cur0) == flush_run(cur0) + seq![op@]
                    + spec_lexemes_from(input@, i as int, cur@));
                assert(lexemes@.map_values(|s: String| s@) + spec_lexemes_from(
                    input@,
                    i as int,
                    cur@,
                ) =~= lex0 + spec_lexemes_from(input@, i0, cur0));
            }
        } else if is_punct(c) {
            flush_alphanumeric(&mut cur, &mut lexemes);
            let ghost lexf = lexemes@.map_values(|s: String| s@);
            let mut op = String::new();
            push_char(&mut op, c);
            proof {
                assert(op@ =~= seq![c]);
            }
            lexemes.push(op);
            i = i + 1;
            proof {
                assert(lexemes@.map_values(|s: String| s@) =~= lexf + seq![op@]);
                assert(spec_lexemes_from(input@, i0, cur0) == flush_run(cur0) + seq![op@]
                    + spec_lexemes_from(input@, i as int, cur@));
                assert(lexemes@.map_values(|s: String| s@) + spec_lexemes_from(
                    input@,
                    i as int,
                    cur@,
                ) =~= lex0 + spec_lexemes_from(input@, i0, cur0));
            }
        } else {
            push_char(&mut cur, c);
            i = i + 1;
        }
    }
    flush_alphanumeric(&mut cur, &mut lexemes);
    proof {
        assert(lexemes@.map_values(|s: String| s@) =~= spec_lexemes(input@));
    }
    lexemes
}

/// The whole scanner: split into atomic lexemes, then classify each one.
#[verifier::loop_isolation(false)]
pub fn scan(input: &str) -> (r: Vec<Lex>)
    ensures
        r@.map_values(|l: Lex| l@) == spec_scan(input@),
{
    let lexemes = scan_lexemes(input);
    let mut toks: Vec<Lex> = Vec::new();
    let mut i: usize = 0;
    while i < lexemes.len()
        invariant
            i <= lexemes@.len(),
            toks@.map_values(|l: Lex| l@) =~= spec_scan(input@).take(i as int),
        decreases lexemes@.len() - i,
    {
        let s = lexemes[i].clone();
        let kind = crate::token::classify(s.as_str());
        toks.push(Lex { kind, lexeme: s });
        i = i + 1;
        proof {
            assert(toks@.map_values(|l: Lex| l@) =~= spec_scan(input@).take(i as int));
        }
    }
    proof {
        assert(spec_scan(input@).take(lexemes@.len() as int) =~= spec_scan(input@));
    }
    toks
}

} // verus!
