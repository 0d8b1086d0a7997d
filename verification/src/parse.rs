//! The parser: turns a path expression string into the syntax tree, with
//! source spans on every node and positioned diagnostics on failure.

use vstd::prelude::*;

use crate::ast::{
    BinOp, BoolLit, BracketLit, BracketSelector, DoubleStringLit, ExprLit, Filter, FilterExpr,
    Ident, IntLit, NonZeroIntLit, NullLit, Path, PathKind, Range, RawSelector, Segment,
    SingleStringLit, StepRange, StringContent, StringLit, SubPath, UnOp, UnionComponent,
};
use crate::error::{ParseError, ParseFail};
use crate::eval::push_char;
use crate::span::Span;

verus! {

broadcast use {vstd::std_specs::vec::group_vec_axioms, vstd::seq::group_seq_axioms};

/// Whether a character counts as a letter or digit in an identifier.
pub uninterp spec fn alnum_of(c: char) -> bool;

/// Relies on char::is_alphanumeric: whether the character is a Unicode
/// letter or digit; the answer depends on the character alone.
#[verifier::external_body]
fn char_is_alphanumeric(c: char) -> (r: bool)
    ensures
        r == alnum_of(c),
{
    c.is_alphanumeric()
}

/// Whether a character counts as whitespace between tokens.
pub uninterp spec fn ws_of(c: char) -> bool;

/// Relies on char::is_whitespace: whether the character is Unicode
/// whitespace; the answer depends on the character alone.
#[verifier::external_body]
fn char_is_whitespace(c: char) -> (r: bool)
    ensures
        r == ws_of(c),
{
    c.is_whitespace()
}

/// The characters of a string, in order.
#[verifier::loop_isolation(false)]
fn str_chars(s: &str) -> (r: Vec<char>)
    ensures
        r@ == s@,
{
    let n = s.unicode_len();
    let mut out: Vec<char> = Vec::new();
    let mut i: usize = 0;
    while i < n
        invariant
            i <= n,
            n == s@.len(),
            out@.len() == i as int,
            forall|j: int| 0 <= j < i as int ==> out@[j] == s@[j],
        decreases n - i,
    {
        out.push(s.get_char(i));
        i += 1;
    }
    proof {
        assert(out@ =~= s@);
    }
    out
}

/// The character at `pos`, or `None` at the end of the input.
fn peek(input: &Vec<char>, pos: usize) -> (r: Option<char>)
    ensures
        match r {
            Some(c) => pos < input@.len() && c == input@[pos as int],
            None => pos >= input@.len(),
        },
{
    if pos < input.len() {
        Some(input[pos])
    } else {
        None
    }
}

/// An unexpected-character failure expecting exactly `exp` at `pos`.
fn fail_expect(input: &Vec<char>, pos: usize, exp: char) -> (r: ParseFail)
    requires
        pos <= input@.len(),
        input@.len() < usize::MAX,
    ensures
        r.span.start == pos,
{
    let mut expected: Vec<Option<char>> = Vec::new();
    expected.push(Some(exp));
    ParseFail::unexpected(Span::new(pos, pos + 1), expected, peek(input, pos))
}

/// The position after any whitespace from `pos` on.
#[verifier::loop_isolation(false)]
fn skip_ws(input: &Vec<char>, pos: usize) -> (r: usize)
    requires
        pos <= input@.len(),
        input@.len() < usize::MAX,
    ensures
        pos <= r <= input@.len(),
{
    let mut i = pos;
    let n = input.len();
    while i < n
        invariant
            pos <= i <= n,
            n == input@.len(),
        decreases n - i,
    {
        if !char_is_whitespace(input[i]) {
            return i;
        }
        i += 1;
    }
    i
}

/// Whether the fixed word stands at `pos`.
#[verifier::loop_isolation(false)]
fn word_at(input: &Vec<char>, pos: usize, word: &Vec<char>) -> (r: bool)
    requires
        pos <= input@.len(),
    ensures
        r ==> pos + word@.len() <= input@.len(),
{
    let wn = word.len();
    if wn > input.len() - pos {
        return false;
    }
    let mut i: usize = 0;
    while i < wn
        invariant
            i <= wn,
            wn == word@.len(),
            pos + wn <= input@.len(),
        decreases wn - i,
    {
        if input[pos + i] != word[i] {
            return false;
        }
        i += 1;
    }
    true
}

/// Parse an identifier: one or more letters, digits, `-` or `_`.
#[verifier::loop_isolation(false)]
fn parse_ident(input: &Vec<char>, pos: usize) -> (r: Result<(Ident, usize), ParseFail>)
    requires
        pos <= input@.len(),
        input@.len() < usize::MAX,
    ensures
        r matches Ok(ok) ==> pos < ok.1 <= input@.len(),
{
    let n = input.len();
    let mut i = pos;
    let mut val = String::new();
    while i < n
        invariant
            pos <= i <= n,
            n == input@.len(),
        decreases n - i,
    {
        let c = input[i];
        if char_is_alphanumeric(c) || c == '-' || c == '_' {
            push_char(&mut val, c);
            i += 1;
        } else {
            break;
        }
    }
    if i == pos {
        Err(fail_expect(input, pos, '_'))
    } else {
        Ok((Ident { span: Span::new(pos, i), val }, i))
    }
}

/// Parse an integer literal: an optional `-` followed by decimal digits.
#[verifier::loop_isolation(false)]
fn parse_int_lit(input: &Vec<char>, pos: usize) -> (r: Result<(IntLit, usize), ParseFail>)
    requires
        pos <= input@.len(),
        input@.len() < usize::MAX,
    ensures
        r matches Ok(ok) ==> pos < ok.1 <= input@.len(),
{
    let n = input.len();
    let mut i = pos;
    let mut neg = false;
    if i < n && input[i] == '-' {
        neg = true;
        i += 1;
    }
    let digits_start = i;
    let mut mag: u64 = 0;
    let mut overflow = false;
    while i < n
        invariant
            digits_start <= i <= n,
            n == input@.len(),
            pos <= digits_start,
        decreases n - i,
    {
        let c = input[i];
        if '0' <= c && c <= '9' {
            let d = (c as u32) - ('0' as u32);
            if mag > 922337203685477580u64 {
                overflow = true;
            } else {
                mag = mag * 10 + (d as u64);
                if mag > 9223372036854775807u64 {
                    overflow = true;
                }
            }
            i += 1;
        } else {
            break;
        }
    }
    if i == digits_start {
        return Err(fail_expect(input, i, '0'));
    }
    if overflow || mag > 9223372036854775807u64 {
        return Err(ParseFail::custom(Span::new(pos, i), "integer literal out of range"));
    }
    let val: i64 = if neg {
        -(mag as i64)
    } else {
        mag as i64
    };
    Ok((IntLit { span: Span::new(pos, i), val }, i))
}

/// Parse a non-zero integer literal.
fn parse_nonzero_int_lit(input: &Vec<char>, pos: usize) -> (r: Result<
    (NonZeroIntLit, usize),
    ParseFail,
>)
    requires
        pos <= input@.len(),
        input@.len() < usize::MAX,
    ensures
        r matches Ok(ok) ==> pos < ok.1 <= input@.len() && ok.0.spec_val() != 0,
{
    match parse_int_lit(input, pos) {
        Ok((lit, p)) => {
            if lit.val == 0 {
                Err(ParseFail::custom(lit.span, "Expected a non-zero integer literal"))
            } else {
                Ok((NonZeroIntLit::new(lit.span, lit.val), p))
            }
        },
        Err(e) => Err(e),
    }
}

/// Parse the content of a string literal up to its closing delimiter.
#[verifier::loop_isolation(false)]
fn parse_string_content(input: &Vec<char>, pos: usize, delim: char) -> (r: (StringContent, usize))
    requires
        pos <= input@.len(),
        input@.len() < usize::MAX,
    ensures
        pos <= r.1 <= input@.len(),
{
    let n = input.len();
    let mut i = pos;
    let mut val = String::new();
    while i < n
        invariant
            pos <= i <= n,
            n == input@.len(),
        decreases n - i,
    {
        let c = input[i];
        if c == delim {
            break;
        }
        push_char(&mut val, c);
        i += 1;
    }
    (StringContent { span: Span::new(pos, i), val }, i)
}

/// Parse a quoted string literal, single or double.
fn parse_string_lit(input: &Vec<char>, pos: usize) -> (r: Result<(StringLit, usize), ParseFail>)
    requires
        pos <= input@.len(),
        input@.len() < usize::MAX,
    ensures
        r matches Ok(ok) ==> pos < ok.1 <= input@.len(),
{
    match peek(input, pos) {
        Some('\'') => {
            let (content, p) = parse_string_content(input, pos + 1, '\'');
            match peek(input, p) {
                Some('\'') => Ok(
                    (
                        StringLit::Single(
                            SingleStringLit {
                                start: Span::new(pos, pos + 1),
                                content,
                                end: Span::new(p, p + 1),
                            },
                        ),
                        p + 1,
                    ),
                ),
                _ => Err(fail_expect(input, p, '\'')),
            }
        },
        Some('"') => {
            let (content, p) = parse_string_content(input, pos + 1, '"');
            match peek(input, p) {
                Some('"') => Ok(
                    (
                        StringLit::Double(
                            DoubleStringLit {
                                start: Span::new(pos, pos + 1),
                                content,
                                end: Span::new(p, p + 1),
                            },
                        ),
                        p + 1,
                    ),
                ),
                _ => Err(fail_expect(input, p, '"')),
            }
        },
        _ => Err(fail_expect(input, pos, '\'')),
    }
}

/// Parse the raw selector after a dot: `*`, `^` or a member name.
fn parse_raw_selector(input: &Vec<char>, pos: usize) -> (r: Result<
    (RawSelector, usize),
    ParseFail,
>)
    requires
        pos <= input@.len(),
        input@.len() < usize::MAX,
    ensures
        r matches Ok(ok) ==> pos < ok.1 <= input@.len(),
{
    match peek(input, pos) {
        Some('*') => Ok((RawSelector::Wildcard(Span::new(pos, pos + 1)), pos + 1)),
        Some('^') => Ok((RawSelector::Parent(Span::new(pos, pos + 1)), pos + 1)),
        _ => match parse_ident(input, pos) {
            Ok((ident, p)) => Ok((RawSelector::Name(ident), p)),
            Err(e) => Err(e),
        },
    }
}

/// Parse a bracket literal: an integer or a quoted string.
fn parse_bracket_lit(input: &Vec<char>, pos: usize) -> (r: Result<(BracketLit, usize), ParseFail>)
    requires
        pos <= input@.len(),
        input@.len() < usize::MAX,
    ensures
        r matches Ok(ok) ==> pos < ok.1 <= input@.len(),
{
    match parse_int_lit(input, pos) {
        Ok((lit, p)) => Ok((BracketLit::Int(lit), p)),
        Err(e1) => match parse_string_lit(input, pos) {
            Ok((lit, p)) => Ok((BracketLit::String(lit), p)),
            Err(e2) => Err(e1.prefer_later(e2)),
        },
    }
}

/// Parse a stepped range: `start? : end? : step?`.
fn parse_step_range(input: &Vec<char>, pos: usize) -> (r: Result<(StepRange, usize), ParseFail>)
    requires
        pos <= input@.len(),
        input@.len() < usize::MAX,
    ensures
        r matches Ok(ok) ==> pos < ok.1 <= input@.len(),
{
    let mut i = pos;
    let start = match parse_int_lit(input, i) {
        Ok((lit, p)) => {
            i = p;
            Some(lit)
        },
        Err(_) => None,
    };
    if !(i < input.len() && input[i] == ':') {
        return Err(fail_expect(input, i, ':'));
    }
    let colon1 = Span::new(i, i + 1);
    i += 1;
    let end = match parse_int_lit(input, i) {
        Ok((lit, p)) => {
            i = p;
            Some(lit)
        },
        Err(_) => None,
    };
    if !(i < input.len() && input[i] == ':') {
        return Err(fail_expect(input, i, ':'));
    }
    let colon2 = Span::new(i, i + 1);
    i += 1;
    let step = match parse_nonzero_int_lit(input, i) {
        Ok((lit, p)) => {
            i = p;
            Some(lit)
        },
        Err(_) => None,
    };
    Ok((StepRange { start, colon1, end, colon2, step }, i))
}

/// Parse a plain range: `start? : end?`.
fn parse_range(input: &Vec<char>, pos: usize) -> (r: Result<(Range, usize), ParseFail>)
    requires
        pos <= input@.len(),
        input@.len() < usize::MAX,
    ensures
        r matches Ok(ok) ==> pos < ok.1 <= input@.len(),
{
    let mut i = pos;
    let start = match parse_int_lit(input, i) {
        Ok((lit, p)) => {
            i = p;
            Some(lit)
        },
        Err(_) => None,
    };
    if !(i < input.len() && input[i] == ':') {
        return Err(fail_expect(input, i, ':'));
    }
    let colon = Span::new(i, i + 1);
    i += 1;
    let end = match parse_int_lit(input, i) {
        Ok((lit, p)) => {
            i = p;
            Some(lit)
        },
        Err(_) => None,
    };
    Ok((Range { start, colon, end }, i))
}

/// Parse the segments of a path or sub-path, as many as stand there, and
/// hand back the failure that stopped the walk for error reporting.
#[verifier::loop_isolation(false)]
fn parse_segments(input: &Vec<char>, pos: usize) -> (r: (Vec<Segment>, usize, ParseFail))
    requires
        pos <= input@.len(),
        input@.len() < usize::MAX,
    ensures
        pos <= r.1 <= input@.len(),
    decreases input@.len() - pos, 20int,
{
    let n = input.len();
    let mut segs: Vec<Segment> = Vec::new();
    let mut i = pos;
    loop
        invariant
            pos <= i <= n,
            n == input@.len(),
        decreases n - i,
    {
        match parse_segment(input, i) {
            Ok((seg, p)) => {
                segs.push(seg);
                i = p;
            },
            Err(e) => {
                return (segs, i, e);
            },
        }
    }
}

/// Parse one path segment: a recursive descent, a bracket selector or a
/// dotted raw selector.
fn parse_segment(input: &Vec<char>, pos: usize) -> (r: Result<(Segment, usize), ParseFail>)
    requires
        pos <= input@.len(),
        input@.len() < usize::MAX,
    ensures
        r matches Ok(ok) ==> pos < ok.1 <= input@.len(),
    decreases input@.len() - pos, 19int,
{
    let n = input.len();
    if pos + 1 < n && input[pos] == '.' && input[pos + 1] == '.' {
        let dotdot = Span::new(pos, pos + 2);
        match parse_raw_selector(input, pos + 2) {
            Ok((sel, p)) => Ok((Segment::Recursive(dotdot, Some(sel)), p)),
            Err(_) => Ok((Segment::Recursive(dotdot, None), pos + 2)),
        }
    } else if pos < n && input[pos] == '[' {
        match parse_bracket_selector(input, pos + 1) {
            Ok((sel, p)) => {
                if p < n && input[p] == ']' {
                    Ok((Segment::Bracket(Span::new(pos, p + 1), sel), p + 1))
                } else {
                    let mut expected: Vec<Option<char>> = Vec::new();
                    expected.push(Some(']'));
                    Err(
                        ParseFail {
                            span: Span::new(p, p + 1),
                            reason: crate::error::FailReason::Unclosed {
                                unclosed_span: Span::new(pos, pos + 1),
                                expected,
                                found: peek(input, p),
                                delimiter: '[',
                            },
                        },
                    )
                }
            },
            Err(e) => Err(e),
        }
    } else if pos < n && input[pos] == '.' {
        match parse_raw_selector(input, pos + 1) {
            Ok((sel, p)) => Ok((Segment::Dot(Span::new(pos, pos + 1), sel), p)),
            Err(e) => Err(e),
        }
    } else {
        Err(fail_expect(input, pos, '.'))
    }
}

/// Parse a sub-path: `$` or `@`, segments, and an optional id marker.
fn parse_subpath(input: &Vec<char>, pos: usize) -> (r: Result<(SubPath, usize), ParseFail>)
    requires
        pos <= input@.len(),
        input@.len() < usize::MAX,
    ensures
        r matches Ok(ok) ==> pos < ok.1 <= input@.len(),
    decreases input@.len() - pos, 1int,
{
    let kind = match peek(input, pos) {
        Some('$') => PathKind::Root(Span::new(pos, pos + 1)),
        Some('@') => PathKind::Relative(Span::new(pos, pos + 1)),
        _ => {
            return Err(fail_expect(input, pos, '$'));
        },
    };
    let (segments, p, _stop) = parse_segments(input, pos + 1);
    if p < input.len() && input[p] == '~' {
        Ok((SubPath { kind, segments, tilde: Some(Span::new(p, p + 1)) }, p + 1))
    } else {
        Ok((SubPath { kind, segments, tilde: None }, p))
    }
}

/// Parse a filter selector: `?( expression )`.
fn parse_filter(input: &Vec<char>, pos: usize) -> (r: Result<(Filter, usize), ParseFail>)
    requires
        pos <= input@.len(),
        input@.len() < usize::MAX,
    ensures
        r matches Ok(ok) ==> pos < ok.1 <= input@.len(),
    decreases input@.len() - pos, 10int,
{
    if !(pos < input.len() && input[pos] == '?') {
        return Err(fail_expect(input, pos, '?'));
    }
    if !(pos + 1 < input.len() && input[pos + 1] == '(') {
        return Err(fail_expect(input, pos + 1, '('));
    }
    match parse_expr(input, pos + 2) {
        Ok((inner, p)) => {
            if p < input.len() && input[p] == ')' {
                Ok(
                    (
                        Filter {
                            question: Span::new(pos, pos + 1),
                            paren: Span::new(pos + 1, p + 1),
                            inner,
                        },
                        p + 1,
                    ),
                )
            } else {
                let mut expected: Vec<Option<char>> = Vec::new();
                expected.push(Some(')'));
                Err(
                    ParseFail {
                        span: Span::new(p, p + 1),
                        reason: crate::error::FailReason::Unclosed {
                            unclosed_span: Span::new(pos + 1, pos + 2),
                            expected,
                            found: peek(input, p),
                            delimiter: '(',
                        },
                    },
                )
            }
        },
        Err(e) => Err(e),
    }
}

/// Parse a literal in a filter expression.
fn parse_expr_lit(input: &Vec<char>, pos: usize) -> (r: Result<(ExprLit, usize), ParseFail>)
    requires
        pos <= input@.len(),
        input@.len() < usize::MAX,
    ensures
        r matches Ok(ok) ==> pos < ok.1 <= input@.len(),
{
    match parse_int_lit(input, pos) {
        Ok((lit, p)) => {
            return Ok((ExprLit::Int(lit), p));
        },
        Err(_) => {},
    }
    match parse_string_lit(input, pos) {
        Ok((lit, p)) => {
            return Ok((ExprLit::String(lit), p));
        },
        Err(_) => {},
    }
    let mut word_true: Vec<char> = Vec::new();
    word_true.push('t');
    word_true.push('r');
    word_true.push('u');
    word_true.push('e');
    if word_at(input, pos, &word_true) {
        return Ok((ExprLit::Bool(BoolLit { span: Span::new(pos, pos + 4), val: true }), pos + 4));
    }
    let mut word_false: Vec<char> = Vec::new();
    word_false.push('f');
    word_false.push('a');
    word_false.push('l');
    word_false.push('s');
    word_false.push('e');
    if word_at(input, pos, &word_false) {
        return Ok((ExprLit::Bool(BoolLit { span: Span::new(pos, pos + 5), val: false }), pos + 5));
    }
    let mut word_null: Vec<char> = Vec::new();
    word_null.push('n');
    word_null.push('u');
    word_null.push('l');
    word_null.push('l');
    if word_at(input, pos, &word_null) {
        return Ok((ExprLit::Null(NullLit { span: Span::new(pos, pos + 4) }), pos + 4));
    }
    Err(fail_expect(input, pos, '\''))
}

/// Parse an expression atom: a sub-path, a literal or a parenthesized
/// expression.
fn parse_atom(input: &Vec<char>, pos: usize) -> (r: Result<(FilterExpr, usize), ParseFail>)
    requires
        pos <= input@.len(),
        input@.len() < usize::MAX,
    ensures
        r matches Ok(ok) ==> pos < ok.1 <= input@.len(),
    decreases input@.len() - pos, 2int,
{
    match parse_subpath(input, pos) {
        Ok((sp, p)) => {
            return Ok((FilterExpr::Path(sp), p));
        },
        Err(e1) => {
            match parse_expr_lit(input, pos) {
                Ok((lit, p)) => {
                    return Ok((FilterExpr::Lit(lit), p));
                },
                Err(e2) => {
                    if pos < input.len() && input[pos] == '(' {
                        match parse_expr(input, pos + 1) {
                            Ok((inner, p)) => {
                                if p < input.len() && input[p] == ')' {
                                    Ok(
                                        (
                                            FilterExpr::Parens(
                                                Span::new(pos, p + 1),
                                                Box::new(inner),
                                            ),
                                            p + 1,
                                        ),
                                    )
                                } else {
                                    Err(fail_expect(input, p, ')'))
                                }
                            },
                            Err(e3) => Err(e3),
                        }
                    } else {
                        Err(e1.prefer_later(e2))
                    }
                },
            }
        },
    }
}

/// Parse a unary expression: prefix `-` and `!` operators over an atom.
fn parse_unary(input: &Vec<char>, pos: usize) -> (r: Result<(FilterExpr, usize), ParseFail>)
    requires
        pos <= input@.len(),
        input@.len() < usize::MAX,
    ensures
        r matches Ok(ok) ==> pos < ok.1 <= input@.len(),
    decreases input@.len() - pos, 3int,
{
    match peek(input, pos) {
        Some('-') => {
            match parse_unary(input, pos + 1) {
                Ok((inner, p)) => Ok(
                    (FilterExpr::Unary(UnOp::Neg(Span::new(pos, pos + 1)), Box::new(inner)), p),
                ),
                Err(e) => Err(e),
            }
        },
        Some('!') => {
            match parse_unary(input, pos + 1) {
                Ok((inner, p)) => Ok(
                    (FilterExpr::Unary(UnOp::Not(Span::new(pos, pos + 1)), Box::new(inner)), p),
                ),
                Err(e) => Err(e),
            }
        },
        _ => parse_atom(input, pos),
    }
}

/// The binary operator of one precedence level standing at `pos`, with the
/// position after it. Level 0 is `* / %`, 1 is `+ -`, 2 is the comparisons,
/// 3 is `&&`, 4 is `||`.
fn parse_bin_op(input: &Vec<char>, pos: usize, level: u8) -> (r: Option<(BinOp, usize)>)
    requires
        pos <= input@.len(),
        input@.len() < usize::MAX,
    ensures
        r matches Some(ok) ==> pos < ok.1 <= input@.len(),
{
    let n = input.len();
    if pos >= n {
        return None;
    }
    let c = input[pos];
    let two = if pos + 1 < n {
        Some(input[pos + 1])
    } else {
        None
    };
    if level == 0 {
        match c {
            '*' => Some((BinOp::Mul(Span::new(pos, pos + 1)), pos + 1)),
            '/' => Some((BinOp::Div(Span::new(pos, pos + 1)), pos + 1)),
            '%' => Some((BinOp::Rem(Span::new(pos, pos + 1)), pos + 1)),
            _ => None,
        }
    } else if level == 1 {
        match c {
            '+' => Some((BinOp::Add(Span::new(pos, pos + 1)), pos + 1)),
            '-' => Some((BinOp::Sub(Span::new(pos, pos + 1)), pos + 1)),
            _ => None,
        }
    } else if level == 2 {
        match (c, two) {
            ('=', Some('=')) => Some((BinOp::Eq(Span::new(pos, pos + 2)), pos + 2)),
            ('<', Some('=')) => Some((BinOp::Le(Span::new(pos, pos + 2)), pos + 2)),
            ('>', Some('=')) => Some((BinOp::Ge(Span::new(pos, pos + 2)), pos + 2)),
            ('<', _) => Some((BinOp::Lt(Span::new(pos, pos + 1)), pos + 1)),
            ('>', _) => Some((BinOp::Gt(Span::new(pos, pos + 1)), pos + 1)),
            _ => None,
        }
    } else if level == 3 {
        match (c, two) {
            ('&', Some('&')) => Some((BinOp::And(Span::new(pos, pos + 2)), pos + 2)),
            _ => None,
        }
    } else {
        match (c, two) {
            ('|', Some('|')) => Some((BinOp::Or(Span::new(pos, pos + 2)), pos + 2)),
            _ => None,
        }
    }
}

/// Parse a left-associative chain of binary operators of one precedence
/// level over the next-tighter level.
#[verifier::loop_isolation(false)]
fn parse_level(input: &Vec<char>, pos: usize, level: u8) -> (r: Result<
    (FilterExpr, usize),
    ParseFail,
>)
    requires
        pos <= input@.len(),
        input@.len() < usize::MAX,
        level <= 4,
    ensures
        r matches Ok(ok) ==> pos < ok.1 <= input@.len(),
    decreases input@.len() - pos, 4int + level as int,
{
    let first = if level == 0 {
        parse_unary(input, pos)
    } else {
        parse_level(input, pos, level - 1)
    };
    match first {
        Err(e) => Err(e),
        Ok((lhs0, p0)) => {
            let mut lhs = lhs0;
            let mut i = p0;
            let n = input.len();
            loop
                invariant
                    pos < i <= n,
                    n == input@.len(),
                    level <= 4,
                decreases n - i,
            {
                let ws1 = skip_ws(input, i);
                match parse_bin_op(input, ws1, level) {
                    Some((op, p1)) => {
                        let ws2 = skip_ws(input, p1);
                        let rhs = if level == 0 {
                            parse_unary(input, ws2)
                        } else {
                            parse_level(input, ws2, level - 1)
                        };
                        match rhs {
                            Ok((rhs_e, p2)) => {
                                lhs = FilterExpr::Binary(Box::new(lhs), op, Box::new(rhs_e));
                                i = p2;
                            },
                            Err(_) => {
                                return Ok((lhs, i));
                            },
                        }
                    },
                    None => {
                        return Ok((lhs, i));
                    },
                }
            }
        },
    }
}

/// Parse a filter expression with full operator precedence.
fn parse_expr(input: &Vec<char>, pos: usize) -> (r: Result<(FilterExpr, usize), ParseFail>)
    requires
        pos <= input@.len(),
        input@.len() < usize::MAX,
    ensures
        r matches Ok(ok) ==> pos < ok.1 <= input@.len(),
    decreases input@.len() - pos, 9int,
{
    parse_level(input, pos, 4)
}

/// Parse one union component, with its surrounding whitespace.
fn parse_union_component(input: &Vec<char>, pos: usize) -> (r: Result<
    (UnionComponent, usize),
    ParseFail,
>)
    requires
        pos <= input@.len(),
        input@.len() < usize::MAX,
    ensures
        r matches Ok(ok) ==> pos < ok.1 <= input@.len(),
    decreases input@.len() - pos, 11int,
{
    let i = skip_ws(input, pos);
    let parsed: Result<(UnionComponent, usize), ParseFail> = match parse_step_range(input, i) {
        Ok((sr, p)) => Ok((UnionComponent::StepRange(sr), p)),
        Err(e1) => match parse_range(input, i) {
            Ok((rg, p)) => Ok((UnionComponent::Range(rg), p)),
            Err(e2) => {
                if i < input.len() && input[i] == '^' {
                    Ok((UnionComponent::Parent(Span::new(i, i + 1)), i + 1))
                } else {
                    match parse_subpath(input, i) {
                        Ok((sp, p)) => Ok((UnionComponent::Path(sp), p)),
                        Err(e3) => match parse_filter(input, i) {
                            Ok((f, p)) => Ok((UnionComponent::Filter(f), p)),
                            Err(e4) => match parse_bracket_lit(input, i) {
                                Ok((lit, p)) => Ok((UnionComponent::Literal(lit), p)),
                                Err(e5) => Err(
                                    e1.prefer_later(e2).prefer_later(e3).prefer_later(
                                        e4,
                                    ).prefer_later(e5),
                                ),
                            },
                        },
                    }
                }
            },
        },
    };
    match parsed {
        Ok((comp, p)) => Ok((comp, skip_ws(input, p))),
        Err(e) => Err(e),
    }
}

/// Parse the inside of a bracket segment: a selector, optionally extended
/// into a comma-separated union.
#[verifier::loop_isolation(false)]
fn parse_bracket_selector(input: &Vec<char>, pos: usize) -> (r: Result<
    (BracketSelector, usize),
    ParseFail,
>)
    requires
        pos <= input@.len(),
        input@.len() < usize::MAX,
    ensures
        r matches Ok(ok) ==> pos < ok.1 <= input@.len(),
    decreases input@.len() - pos, 12int,
{
    let i = skip_ws(input, pos);
    let first: Result<(BracketSelector, usize), ParseFail> = match parse_step_range(input, i) {
        Ok((sr, p)) => Ok((BracketSelector::StepRange(sr), p)),
        Err(e1) => match parse_range(input, i) {
            Ok((rg, p)) => Ok((BracketSelector::Range(rg), p)),
            Err(e2) => {
                if i < input.len() && input[i] == '*' {
                    Ok((BracketSelector::Wildcard(Span::new(i, i + 1)), i + 1))
                } else if i < input.len() && input[i] == '^' {
                    Ok((BracketSelector::Parent(Span::new(i, i + 1)), i + 1))
                } else {
                    match parse_subpath(input, i) {
                        Ok((sp, p)) => Ok((BracketSelector::Path(sp), p)),
                        Err(e3) => match parse_filter(input, i) {
                            Ok((f, p)) => Ok((BracketSelector::Filter(f), p)),
                            Err(e4) => match parse_bracket_lit(input, i) {
                                Ok((lit, p)) => Ok((BracketSelector::Literal(lit), p)),
                                Err(e5) => Err(
                                    e1.prefer_later(e2).prefer_later(e3).prefer_later(
                                        e4,
                                    ).prefer_later(e5),
                                ),
                            },
                        },
                    }
                }
            },
        },
    };
    match first {
        Err(e) => Err(e),
        Ok((select, p0)) => {
            let ghost sel_start = i as int;
            let mut p = skip_ws(input, p0);
            let n = input.len();
            if !(p < n && input[p] == ',') {
                return Ok((select, p));
            }
            // a union follows: the first selector becomes its first component
            let first_comp: UnionComponent = match select {
                BracketSelector::StepRange(sr) => UnionComponent::StepRange(sr),
                BracketSelector::Range(rg) => UnionComponent::Range(rg),
                BracketSelector::Parent(sp) => UnionComponent::Parent(sp),
                BracketSelector::Path(sp) => UnionComponent::Path(sp),
                BracketSelector::Filter(f) => UnionComponent::Filter(f),
                BracketSelector::Literal(lit) => UnionComponent::Literal(lit),
                _ => {
                    return Err(
                        ParseFail::custom(
                            Span::new(i, p0),
                            "Union operator doesn't support wildcard",
                        ),
                    );
                },
            };
            let mut comps: Vec<UnionComponent> = Vec::new();
            comps.push(first_comp);
            loop
                invariant
                    pos < p <= n,
                    n == input@.len(),
                decreases n - p,
            {
                if p < n && input[p] == ',' {
                    match parse_union_component(input, p + 1) {
                        Ok((comp, p2)) => {
                            comps.push(comp);
                            p = p2;
                        },
                        Err(e) => {
                            return Err(e);
                        },
                    }
                } else {
                    return Ok((BracketSelector::Union(comps), p));
                }
            }
        },
    }
}

/// Parse a whole path expression: `$`, segments, and an optional id marker,
/// reaching the end of the input.
fn parse_path(input: &Vec<char>) -> (r: Result<Path, ParseFail>)
    requires
        input@.len() < usize::MAX,
{
    let n = input.len();
    if !(0 < n && input[0] == '$') {
        return Err(fail_expect(input, 0, '$'));
    }
    let dollar = Span::new(0, 1);
    let (segments, p0, stop) = parse_segments(input, 1);
    let mut p = p0;
    let tilde: Option<Span> = if p < n && input[p] == '~' {
        let t = Span::new(p, p + 1);
        p = p + 1;
        Some(t)
    } else {
        None
    };
    if p < n {
        let mut expected: Vec<Option<char>> = Vec::new();
        expected.push(None);
        let at_end = ParseFail::unexpected(Span::new(p, p + 1), expected, peek(input, p));
        return Err(stop.prefer_later(at_end));
    }
    Ok(Path { dollar, segments, tilde })
}

impl Path {
    /// Compile a JSON path, which can be used to match items multiple
    /// times. On failure the error carries the pattern text and at least
    /// one positioned diagnostic.
    pub fn compile(pattern: &str) -> (r: Result<Path, ParseError>)
        ensures
            r matches Err(e) ==> e.src@ == pattern@ && e.errs@.len() > 0,
    {
        let chars = str_chars(pattern);
        if chars.len() == usize::MAX {
            let mut errs: Vec<ParseFail> = Vec::new();
            errs.push(ParseFail::custom(Span::new(0, 0), "path text too long"));
            return Err(ParseError::new(pattern, errs));
        }
        match parse_path(&chars) {
            Ok(path) => Ok(path),
            Err(fail) => {
                let mut errs: Vec<ParseFail> = Vec::new();
                errs.push(fail);
                Err(ParseError::new(pattern, errs))
            },
        }
    }
}

} // verus!
