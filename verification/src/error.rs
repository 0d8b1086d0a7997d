//! Errors returned by fallible operations.

use vstd::prelude::*;

use crate::idx::Idx;
use crate::span::Span;
use crate::value::JsonValue;

verus! {

/// Type of a JSON value, for error reports.
#[derive(Copy, Clone, Debug, PartialEq, Eq, Structural)]
pub enum JsonTy {
    /// `null`
    Null,
    /// `true` or `false`
    Bool,
    /// An integer number
    Number,
    /// `"foo"` or similar
    String,
    /// `[1, 2, 3]` or similar
    Array,
    /// `{"a": false}` or similar
    Object,
}

impl JsonTy {
    /// The type tag of the given value.
    pub fn of_value(val: &JsonValue) -> (r: JsonTy)
        ensures
            r == spec_json_ty(val@),
    {
        match val {
            JsonValue::Null => JsonTy::Null,
            JsonValue::Bool(_) => JsonTy::Bool,
            JsonValue::Int(_) => JsonTy::Number,
            JsonValue::Str(_) => JsonTy::String,
            JsonValue::Array(_) => JsonTy::Array,
            JsonValue::Object(_) => JsonTy::Object,
        }
    }
}

/// The type tag of a document model value.
pub open spec fn spec_json_ty(m: crate::value::JsonModel) -> JsonTy {
    match m {
        crate::value::JsonModel::Null => JsonTy::Null,
        crate::value::JsonModel::Bool(_) => JsonTy::Bool,
        crate::value::JsonModel::Int(_) => JsonTy::Number,
        crate::value::JsonModel::Str(_) => JsonTy::String,
        crate::value::JsonModel::Arr(_) => JsonTy::Array,
        crate::value::JsonModel::Obj(_) => JsonTy::Object,
    }
}

/// Error returned by a failure to resolve a path of indices.
#[derive(Debug)]
pub enum ResolveError {
    /// Expected the next value on the path to have a specific type, but it didn't
    MismatchedTy {
        /// Type that was expected
        expected: JsonTy,
        /// Type that was found
        actual: JsonTy,
    },
    /// Expected an index to exist, but it didn't
    MissingIdx(Idx),
}

impl ResolveError {
    /// Build a type-mismatch error against the value that was found.
    pub fn mismatched(expected: JsonTy, got: &JsonValue) -> (r: ResolveError)
        ensures
            r == (ResolveError::MismatchedTy { expected, actual: spec_json_ty(got@) }),
    {
        ResolveError::MismatchedTy { expected, actual: JsonTy::of_value(got) }
    }
}

/// The cause of a parse failure.
#[derive(Debug)]
pub enum FailReason {
    /// An unexpected character at a span
    Unexpected {
        /// The set of expected characters; `None` stands for end of input
        expected: Vec<Option<char>>,
        /// The found character; `None` stands for end of input
        found: Option<char>,
    },
    /// An unclosed delimiter was encountered
    Unclosed {
        /// The span of the unclosed starting token
        unclosed_span: Span,
        /// The expected characters
        expected: Vec<Option<char>>,
        /// The found character
        found: Option<char>,
        /// The expected closing delimiter
        delimiter: char,
    },
    /// A custom message
    Custom(String),
    /// Multiple reasons merged together
    MultiReason(Vec<FailReason>),
}

/// Whether two optional characters are the same.
fn opt_char_eq(a: &Option<char>, b: &Option<char>) -> (r: bool)
    ensures
        r == (a == b),
{
    match (a, b) {
        (Some(x), Some(y)) => x == y,
        (None, None) => true,
        _ => false,
    }
}

/// Whether the set already holds the given character.
fn contains_opt(v: &Vec<Option<char>>, x: &Option<char>) -> (r: bool)
    ensures
        r == v@.contains(*x),
{
    let m = v.len();
    let mut j: usize = 0;
    while j < m
        invariant
            j <= m,
            m == v@.len(),
            forall|k: int| 0 <= k < j as int ==> v@[k] != *x,
        decreases m - j,
    {
        if opt_char_eq(&v[j], x) {
            proof {
                assert(v@[j as int] == *x);
            }
            return true;
        }
        j += 1;
    }
    false
}

/// What pooling two expectation sets guarantees: the pool keeps the first
/// set as a prefix, draws every member from one of the two sets, covers
/// both sets, and adds nothing twice.
pub open spec fn pooled_expected(
    items: Seq<Option<char>>,
    other: Seq<Option<char>>,
    out: Seq<Option<char>>,
) -> bool {
    &&& out.len() >= items.len()
    &&& forall|j: int| 0 <= j < items.len() ==> out[j] == items[j]
    &&& forall|j: int|
        0 <= j < out.len() ==> items.contains(#[trigger] out[j]) || other.contains(out[j])
    &&& forall|k: int| 0 <= k < other.len() ==> out.contains(#[trigger] other[k])
    &&& forall|a: int, b: int|
        0 <= a < b < out.len() && out[a] == out[b] ==> b < items.len()
}

/// `items` extended with those of `other` it does not already hold.
fn merge_expected(items: Vec<Option<char>>, other: Vec<Option<char>>) -> (r: Vec<Option<char>>)
    ensures
        pooled_expected(items@, other@, r@),
{
    let mut out = items;
    let ghost items0 = out@;
    let n = other.len();
    let mut i: usize = 0;
    while i < n
        invariant
            i <= n,
            n == other@.len(),
            out@.len() >= items0.len(),
            forall|j: int| 0 <= j < items0.len() ==> out@[j] == items0[j],
            forall|j: int|
                0 <= j < out@.len() ==> items0.contains(#[trigger] out@[j]) || other@.contains(
                    out@[j],
                ),
            forall|k: int| 0 <= k < i as int ==> out@.contains(#[trigger] other@[k]),
            forall|a: int, b: int|
                0 <= a < b < out@.len() && out@[a] == out@[b] ==> b < items0.len(),
        decreases n - i,
    {
        let seen = contains_opt(&out, &other[i]);
        let ghost prev = out@;
        if !seen {
            out.push(match &other[i] {
                Some(c) => Some(*c),
                None => None,
            });
            proof {
                assert(out@ =~= prev.push(other@[i as int]));
                assert(other@.contains(other@[i as int]));
            }
        }
        proof {
            assert forall|k: int| 0 <= k < i as int + 1 implies out@.contains(
                #[trigger] other@[k],
            ) by {
                if k < i as int {
                    let w = choose|w: int| 0 <= w < prev.len() && #[trigger] prev[w] == other@[k];
                    assert(out@[w] == other@[k]);
                } else {
                    if seen {
                        let w = choose|w: int|
                            0 <= w < prev.len() && #[trigger] prev[w] == other@[i as int];
                        assert(out@[w] == other@[k]);
                    } else {
                        assert(out@[out@.len() - 1] == other@[k]);
                    }
                }
            }
        }
        i += 1;
    }
    out
}

impl FailReason {
    /// Merge two failure causes at the same position: unexpected-character
    /// reports pool their expectations, anything else is collected into one
    /// multi-reason report.
    pub(crate) fn merge(self, other: FailReason) -> (r: FailReason)
        ensures
            match (self, other) {
                (
                    FailReason::Unexpected { expected: e1, found },
                    FailReason::Unexpected { expected: e2, found: _ },
                ) => r matches FailReason::Unexpected { expected, found: f } && f == found
                    && pooled_expected(e1@, e2@, expected@),
                (FailReason::MultiReason(m1), FailReason::MultiReason(m2)) => r
                    matches FailReason::MultiReason(m) && m@ == m1@ + m2@,
                (FailReason::MultiReason(m1), o) => r matches FailReason::MultiReason(m) && m@
                    == m1@.push(o),
                (t, FailReason::MultiReason(m2)) => r matches FailReason::MultiReason(m) && m@
                    == m2@.push(t),
                (t, o) => r matches FailReason::MultiReason(m) && m@ == seq![t, o],
            },
    {
        match (self, other) {
            (
                FailReason::Unexpected { expected: e1, found },
                FailReason::Unexpected { expected: e2, found: _ },
            ) => FailReason::Unexpected { expected: merge_expected(e1, e2), found },
            (FailReason::MultiReason(mut multi1), FailReason::MultiReason(mut multi2)) => {
                let mut multi = multi1;
                let mut rest = multi2;
                multi.append(&mut rest);
                FailReason::MultiReason(multi)
            },
            (FailReason::MultiReason(mut multi), other) => {
                let mut out = multi;
                out.push(other);
                FailReason::MultiReason(out)
            },
            (this, FailReason::MultiReason(mut multi)) => {
                let mut out = multi;
                out.push(this);
                FailReason::MultiReason(out)
            },
            (this, other) => {
                let mut out: Vec<FailReason> = Vec::new();
                out.push(this);
                out.push(other);
                FailReason::MultiReason(out)
            },
        }
    }
}

/// A single parse failure.
#[derive(Debug)]
pub struct ParseFail {
    /// Where the failure was noticed
    pub span: Span,
    /// Why the parse failed there
    pub reason: FailReason,
}

impl ParseFail {
    /// Create a custom parse failure.
    pub(crate) fn custom(span: Span, message: &str) -> (r: ParseFail)
        ensures
            r.span == span,
            r.reason matches FailReason::Custom(m) && m@ == message@,
    {
        ParseFail { span, reason: FailReason::Custom(String::from_str(message)) }
    }

    /// Create an unexpected-character failure.
    pub(crate) fn unexpected(span: Span, expected: Vec<Option<char>>, found: Option<char>) -> (r:
        ParseFail)
        ensures
            r.span == span,
            r.reason == (FailReason::Unexpected { expected, found }),
    {
        ParseFail { span, reason: FailReason::Unexpected { expected, found } }
    }

    /// Where the failure was noticed.
    pub fn span(&self) -> (r: Span)
        ensures
            r == self.span,
    {
        self.span
    }

    /// Get the reason of this parse failure.
    pub fn reason(&self) -> (r: &FailReason)
        ensures
            r == &self.reason,
    {
        &self.reason
    }

    /// Keep the failure that got further into the input; merge the reasons
    /// of failures at the same position.
    pub(crate) fn prefer_later(self, other: ParseFail) -> (r: ParseFail)
        ensures
            other.span.start > self.span.start ==> r == other,
            self.span.start > other.span.start ==> r == self,
            self.span.start == other.span.start ==> r.span == self.span,
    {
        if other.span.start > self.span.start {
            other
        } else if self.span.start > other.span.start {
            self
        } else {
            ParseFail { span: self.span, reason: self.reason.merge(other.reason) }
        }
    }
}

/// Error returned by a failure to parse a provided JSON path: the source
/// text together with the positioned diagnostics.
#[derive(Debug)]
pub struct ParseError {
    /// The text that failed to parse
    pub src: String,
    /// The diagnostics, in the order they were found
    pub errs: Vec<ParseFail>,
}

impl ParseError {
    /// Bundle parse diagnostics with the text they point into.
    pub(crate) fn new(src: &str, errs: Vec<ParseFail>) -> (r: ParseError)
        ensures
            r.src@ == src@,
            r.errs == errs,
    {
        ParseError { src: String::from_str(src), errs }
    }

    /// The text that failed to parse.
    pub fn source_text(&self) -> (r: &str)
        ensures
            r@ == self.src@,
    {
        self.src.as_str()
    }

    /// The diagnostics, in the order they were found.
    pub fn failures(&self) -> (r: &Vec<ParseFail>)
        ensures
            r == &self.errs,
    {
        &self.errs
    }
}

} // verus!
