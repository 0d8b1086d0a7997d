//! Syntax tree that backs a path. If you just want to use paths, you
//! shouldn't touch this. This is exposed for users who want to provide
//! things like syntax highlighting of paths or similar.

use vstd::prelude::*;

use crate::span::{Span, Spanned};

verus! {

broadcast use {vstd::std_specs::vec::group_vec_axioms, vstd::seq::group_seq_axioms};

// Atoms

/// A raw identifier, the `foo` in `.foo`.
#[derive(Debug)]
pub struct Ident {
    /// Source location
    pub span: Span,
    /// The identifier text
    pub val: String,
}

impl Ident {
    /// Get the string representation of this identifier.
    pub fn as_str(&self) -> (r: &str)
        ensures
            r@ == self.val@,
    {
        self.val.as_str()
    }
}

/// A boolean literal, such as `true` or `false`.
#[derive(Debug)]
pub struct BoolLit {
    /// Source location
    pub span: Span,
    /// The boolean value
    pub val: bool,
}

impl BoolLit {
    /// Get the boolean representation of this literal.
    pub fn as_bool(&self) -> (r: bool)
        ensures
            r == self.val,
    {
        self.val
    }
}

/// A null literal, the keyword `null`.
#[derive(Debug)]
pub struct NullLit {
    /// Source location
    pub span: Span,
}

/// An integer literal, such as `-3`.
#[derive(Debug)]
pub struct IntLit {
    /// Source location
    pub span: Span,
    /// The integer value
    pub val: i64,
}

impl IntLit {
    /// Get the integer representation of this literal.
    pub fn as_int(&self) -> (r: i64)
        ensures
            r == self.val,
    {
        self.val
    }
}

/// A non-zero integer literal, any integer not `0`. The value sits behind
/// an invariant: a literal of this kind can never hold zero.
#[derive(Debug)]
pub struct NonZeroIntLit {
    span: Span,
    val: i64,
}

impl NonZeroIntLit {
    #[verifier::type_invariant]
    spec fn value_nonzero(self) -> bool {
        self.val != 0
    }

    /// The integer value of this literal.
    pub closed spec fn spec_val(&self) -> i64 {
        self.val
    }

    /// The source location of this literal.
    pub closed spec fn spec_span(&self) -> Span {
        self.span
    }

    /// Build a non-zero integer literal.
    pub(crate) fn new(span: Span, val: i64) -> (r: NonZeroIntLit)
        requires
            val != 0,
        ensures
            r.spec_span() == span,
            r.spec_val() == val,
    {
        NonZeroIntLit { span, val }
    }

    /// Get the integer representation of this literal, which is never zero.
    pub fn as_int(&self) -> (r: i64)
        ensures
            r == self.spec_val(),
            r != 0,
    {
        proof {
            use_type_invariant(self);
        }
        self.val
    }
}

/// The characters between the quotes of a string literal.
#[derive(Debug)]
pub struct StringContent {
    /// Source location
    pub span: Span,
    /// The unescaped content
    pub val: String,
}

/// An apostrophe-delimited string.
#[derive(Debug)]
pub struct SingleStringLit {
    /// The opening quote
    pub start: Span,
    /// The content between the quotes
    pub content: StringContent,
    /// The closing quote
    pub end: Span,
}

impl SingleStringLit {
    /// Get the content of this string literal.
    pub fn as_str(&self) -> (r: &str)
        ensures
            r@ == self.content.val@,
    {
        self.content.val.as_str()
    }
}

/// A quote-delimited string.
#[derive(Debug)]
pub struct DoubleStringLit {
    /// The opening quote
    pub start: Span,
    /// The content between the quotes
    pub content: StringContent,
    /// The closing quote
    pub end: Span,
}

impl DoubleStringLit {
    /// Get the content of this string literal.
    pub fn as_str(&self) -> (r: &str)
        ensures
            r@ == self.content.val@,
    {
        self.content.val.as_str()
    }
}

/// Any string literal, whether single or double quote delimited.
#[derive(Debug)]
pub enum StringLit {
    /// A single-quoted string literal
    Single(SingleStringLit),
    /// A double-quoted string literal
    Double(DoubleStringLit),
}

/// The content of a string literal, whatever its quoting.
pub open spec fn string_lit_val(s: StringLit) -> Seq<char> {
    match s {
        StringLit::Single(s) => s.content.val@,
        StringLit::Double(s) => s.content.val@,
    }
}

impl StringLit {
    /// Get the content of this string literal.
    pub fn as_str(&self) -> (r: &str)
        ensures
            r@ == string_lit_val(*self),
    {
        match self {
            StringLit::Single(s) => s.as_str(),
            StringLit::Double(s) => s.as_str(),
        }
    }
}

// Main AST

/// A compiled JSON path. Can be used to match against items any number of
/// times, preventing recompilation of the same pattern many times.
#[derive(Debug)]
pub struct Path {
    /// The leading `$`
    pub dollar: Span,
    /// The steps of the path, in order
    pub segments: Vec<Segment>,
    /// The trailing id marker `~`, if any
    pub tilde: Option<Span>,
}

impl Path {
    /// A slice of the segments this path contains.
    pub fn segments(&self) -> (r: &[Segment])
        ensures
            r@ == self.segments@,
    {
        self.segments.as_slice()
    }

    /// Whether this path ends in the id marker `~`, asking for the keys of
    /// the matched items rather than the items themselves.
    pub fn is_id(&self) -> (r: bool)
        ensures
            r == self.tilde is Some,
    {
        self.tilde.is_some()
    }
}

/// A sub-path, such as in a filter or as a bracket selector. Can be based
/// off the root or the current location.
#[derive(Debug)]
pub struct SubPath {
    /// Whether the sub-path starts at the root or the current node
    pub kind: PathKind,
    /// The steps of the sub-path, in order
    pub segments: Vec<Segment>,
    /// The trailing id marker `~`, if any
    pub tilde: Option<Span>,
}

impl SubPath {
    /// The kind of this sub-path.
    pub fn kind(&self) -> (r: &PathKind)
        ensures
            r == &self.kind,
    {
        &self.kind
    }

    /// A slice of the segments this path contains.
    pub fn segments(&self) -> (r: &[Segment])
        ensures
            r@ == self.segments@,
    {
        self.segments.as_slice()
    }

    /// Whether this path references the IDs of the matched items, or the
    /// items themselves.
    pub fn is_id(&self) -> (r: bool)
        ensures
            r == self.tilde is Some,
    {
        self.tilde.is_some()
    }
}

/// The kind of a sub-path. Either root-based or relative.
#[derive(Debug)]
pub enum PathKind {
    /// A root-based path
    Root(Span),
    /// A relative path
    Relative(Span),
}

impl PathKind {
    /// Whether this is an absolute root based path kind.
    pub fn is_root(&self) -> (r: bool)
        ensures
            r == self is Root,
    {
        matches!(self, PathKind::Root(_))
    }

    /// Whether this is a relative path kind.
    pub fn is_relative(&self) -> (r: bool)
        ensures
            r == self is Relative,
    {
        matches!(self, PathKind::Relative(_))
    }
}

/// A single segment selector in a path.
#[derive(Debug)]
pub enum Segment {
    /// A dot followed by a simple selector, `.a`
    Dot(Span, RawSelector),
    /// A bracket containing a complex selector, `[?(...)]`
    Bracket(Span, BracketSelector),
    /// A recursive selector optionally followed by a simple selector, `..foo`
    Recursive(Span, Option<RawSelector>),
}

/// The raw selector following a dot.
#[derive(Debug)]
pub enum RawSelector {
    /// A wildcard selector to get all children, `.*`
    Wildcard(Span),
    /// A parent selector to retrieve the parent of the matched item, `.^`
    Parent(Span),
    /// A name ident selector to retrieve the matched name in an object, `.my_name`
    Name(Ident),
}

/// A range for selecting keys from an array from a start to an end key, with
/// an extra parameter to select every Nth key.
#[derive(Debug)]
pub struct StepRange {
    /// The start bound, if any
    pub start: Option<IntLit>,
    /// The first `:`
    pub colon1: Span,
    /// The end bound, if any
    pub end: Option<IntLit>,
    /// The second `:`
    pub colon2: Span,
    /// The step, if any
    pub step: Option<NonZeroIntLit>,
}

impl StepRange {
    /// Get the start literal token for this range.
    pub fn start_lit(&self) -> (r: Option<&IntLit>)
        ensures
            match r {
                Some(lit) => self.start == Some(*lit),
                None => self.start is None,
            },
    {
        self.start.as_ref()
    }

    /// Get the end literal token for this range.
    pub fn end_lit(&self) -> (r: Option<&IntLit>)
        ensures
            match r {
                Some(lit) => self.end == Some(*lit),
                None => self.end is None,
            },
    {
        self.end.as_ref()
    }

    /// Get the step literal token for this range.
    pub fn step_lit(&self) -> (r: Option<&NonZeroIntLit>)
        ensures
            match r {
                Some(lit) => self.step == Some(*lit),
                None => self.step is None,
            },
    {
        self.step.as_ref()
    }

    /// Get the user-provided literal start for this range.
    pub fn start(&self) -> (r: Option<i64>)
        ensures
            r == match self.start {
                Some(lit) => Some(lit.val),
                None => None::<i64>,
            },
    {
        match &self.start {
            Some(lit) => Some(lit.as_int()),
            None => None,
        }
    }

    /// Get the user-provided literal end for this range.
    pub fn end(&self) -> (r: Option<i64>)
        ensures
            r == match self.end {
                Some(lit) => Some(lit.val),
                None => None::<i64>,
            },
    {
        match &self.end {
            Some(lit) => Some(lit.as_int()),
            None => None,
        }
    }

    /// Get the user-provided step value for this range.
    pub fn step(&self) -> (r: Option<i64>)
        ensures
            r == match self.step {
                Some(lit) => Some(lit.spec_val()),
                None => None::<i64>,
            },
    {
        match &self.step {
            Some(lit) => Some(lit.as_int()),
            None => None,
        }
    }
}

/// A range for selecting keys from an array from a start to an end key.
#[derive(Debug)]
pub struct Range {
    /// The start bound, if any
    pub start: Option<IntLit>,
    /// The `:`
    pub colon: Span,
    /// The end bound, if any
    pub end: Option<IntLit>,
}

impl Range {
    /// Get the start literal token for this range.
    pub fn start_lit(&self) -> (r: Option<&IntLit>)
        ensures
            match r {
                Some(lit) => self.start == Some(*lit),
                None => self.start is None,
            },
    {
        self.start.as_ref()
    }

    /// Get the end literal token for this range.
    pub fn end_lit(&self) -> (r: Option<&IntLit>)
        ensures
            match r {
                Some(lit) => self.end == Some(*lit),
                None => self.end is None,
            },
    {
        self.end.as_ref()
    }

    /// Get the user-provided literal start for this range.
    pub fn start(&self) -> (r: Option<i64>)
        ensures
            r == match self.start {
                Some(lit) => Some(lit.val),
                None => None::<i64>,
            },
    {
        match &self.start {
            Some(lit) => Some(lit.as_int()),
            None => None,
        }
    }

    /// Get the user-provided literal end for this range.
    pub fn end(&self) -> (r: Option<i64>)
        ensures
            r == match self.end {
                Some(lit) => Some(lit.val),
                None => None::<i64>,
            },
    {
        match &self.end {
            Some(lit) => Some(lit.as_int()),
            None => None,
        }
    }
}

/// A component of a bracket union selector.
#[derive(Debug)]
pub enum UnionComponent {
    /// A range selector with explicit step
    StepRange(StepRange),
    /// A range selector with implicit step
    Range(Range),
    /// A parent selector to retrieve the parent of the matched item
    Parent(Span),
    /// A sub-path selector to retrieve keys from a matched path
    Path(SubPath),
    /// A filter selector to retrieve items matching a predicate
    Filter(Filter),
    /// A literal selector to retrieve the mentioned keys
    Literal(BracketLit),
}

/// The inside of a bracket selector segment.
#[derive(Debug)]
pub enum BracketSelector {
    /// A union of multiple selectors, `[1, 3, 9]`
    Union(Vec<UnionComponent>),
    /// A range selector with explicit step, `[1:5:2]`
    StepRange(StepRange),
    /// A range selector with implicit step, `[2:8]`
    Range(Range),
    /// A wildcard selector to get all children, `[*]`
    Wildcard(Span),
    /// A parent selector to retrieve the parent of the matched item, `[^]`
    Parent(Span),
    /// A sub-path selector to retrieve keys from a matched path, `[$.foo.bar]`
    Path(SubPath),
    /// A filter selector to retrieve items matching a predicate, `[?(expr)]`
    Filter(Filter),
    /// A literal selector to retrieve the mentioned keys, `[6]` or `['qux']`
    Literal(BracketLit),
}

/// A literal selector inside of brackets, `0` or `'a'`.
#[derive(Debug)]
pub enum BracketLit {
    /// An integer literal, see [`IntLit`]
    Int(IntLit),
    /// A string literal, see [`StringLit`]
    String(StringLit),
}

impl BracketLit {
    /// Whether this literal is an integer.
    pub fn is_int(&self) -> (r: bool)
        ensures
            r == self is Int,
    {
        matches!(self, BracketLit::Int(_))
    }

    /// Whether this literal is a string.
    pub fn is_str(&self) -> (r: bool)
        ensures
            r == self is String,
    {
        matches!(self, BracketLit::String(_))
    }

    /// Get this literal as an integer value, or None.
    pub fn as_int(&self) -> (r: Option<i64>)
        ensures
            r == match *self {
                BracketLit::Int(i) => Some(i.val),
                BracketLit::String(_) => None::<i64>,
            },
    {
        if let BracketLit::Int(i) = self {
            Some(i.as_int())
        } else {
            None
        }
    }

    /// Get this literal as a string value, or None.
    pub fn as_str(&self) -> (r: Option<&str>)
        ensures
            match r {
                Some(s) => self is String && s@ == string_lit_val(self->String_0),
                None => self is Int,
            },
    {
        if let BracketLit::String(s) = self {
            Some(s.as_str())
        } else {
            None
        }
    }
}

/// A filter selector inside of brackets, `?(...)`.
#[derive(Debug)]
pub struct Filter {
    /// The `?`
    pub question: Span,
    /// The parenthesis pair around the expression
    pub paren: Span,
    /// The predicate evaluated on each child
    pub inner: FilterExpr,
}

impl Filter {
    /// The inner expression of this filter.
    pub fn expression(&self) -> (r: &FilterExpr)
        ensures
            r == &self.inner,
    {
        &self.inner
    }
}

/// A literal inside an expression.
#[derive(Debug)]
pub enum ExprLit {
    /// An integer literal, see [`IntLit`]
    Int(IntLit),
    /// A string literal, see [`StringLit`]
    String(StringLit),
    /// A boolean literal, see [`BoolLit`]
    Bool(BoolLit),
    /// A null literal, see [`NullLit`]
    Null(NullLit),
}

impl ExprLit {
    /// Whether this literal is an integer.
    pub fn is_int(&self) -> (r: bool)
        ensures
            r == self is Int,
    {
        matches!(self, ExprLit::Int(_))
    }

    /// Whether this literal is a string.
    pub fn is_str(&self) -> (r: bool)
        ensures
            r == self is String,
    {
        matches!(self, ExprLit::String(_))
    }

    /// Whether this literal is a boolean.
    pub fn is_bool(&self) -> (r: bool)
        ensures
            r == self is Bool,
    {
        matches!(self, ExprLit::Bool(_))
    }

    /// Whether this literal is a null.
    pub fn is_null(&self) -> (r: bool)
        ensures
            r == self is Null,
    {
        matches!(self, ExprLit::Null(_))
    }

    /// Get this literal as an integer value, or None.
    pub fn as_int(&self) -> (r: Option<i64>)
        ensures
            r == match *self {
                ExprLit::Int(i) => Some(i.val),
                _ => None::<i64>,
            },
    {
        if let ExprLit::Int(i) = self {
            Some(i.as_int())
        } else {
            None
        }
    }

    /// Get this literal as a string value, or None.
    pub fn as_str(&self) -> (r: Option<&str>)
        ensures
            match r {
                Some(s) => self is String && s@ == string_lit_val(self->String_0),
                None => !(self is String),
            },
    {
        if let ExprLit::String(s) = self {
            Some(s.as_str())
        } else {
            None
        }
    }

    /// Get this literal as a boolean value, or None.
    pub fn as_bool(&self) -> (r: Option<bool>)
        ensures
            r == match *self {
                ExprLit::Bool(b) => Some(b.val),
                _ => None::<bool>,
            },
    {
        if let ExprLit::Bool(b) = self {
            Some(b.as_bool())
        } else {
            None
        }
    }
}

/// An expression inside a filter directive, or any sub-expression in that
/// tree.
#[derive(Debug)]
pub enum FilterExpr {
    /// An expression with an unary operator before it, such as `!(true)`
    Unary(UnOp, Box<FilterExpr>),
    /// Two expressions with a binary operator joining them, such as `1 + 4`
    Binary(Box<FilterExpr>, BinOp, Box<FilterExpr>),
    /// A [`SubPath`] expression, such as the `@.a` in `@.a == 1`
    Path(SubPath),
    /// A literal value, such as `null` or `'bar'`
    Lit(ExprLit),
    /// An expression wrapped in parenthesis, such as the `(1 + 2)` in `(1 + 2) * 3`
    Parens(Span, Box<FilterExpr>),
}

/// An unary operator in an expression.
#[derive(Debug)]
pub enum UnOp {
    /// `-`
    Neg(Span),
    /// `!`
    Not(Span),
}

/// A binary operator in an expression.
#[derive(Debug)]
pub enum BinOp {
    /// `&&`
    And(Span),
    /// `||`
    Or(Span),
    /// `==`
    Eq(Span),
    /// `<=`
    Le(Span),
    /// `<`
    Lt(Span),
    /// `>`
    Gt(Span),
    /// `>=`
    Ge(Span),
    /// `+`
    Add(Span),
    /// `-`
    Sub(Span),
    /// `*`
    Mul(Span),
    /// `/`
    Div(Span),
    /// `%`
    Rem(Span),
}

// Parent usage

/// Whether any segment of the sequence navigates to a parent.
pub open spec fn spec_segments_has_parent(ss: Seq<Segment>) -> bool
    decreases ss,
{
    exists|i: int| 0 <= i < ss.len() && spec_segment_has_parent(ss[i])
}

/// Whether a segment navigates to a parent, directly or through a nested
/// sub-path or filter.
pub open spec fn spec_segment_has_parent(s: Segment) -> bool
    decreases s,
{
    match s {
        Segment::Dot(_, RawSelector::Parent(_)) => true,
        Segment::Recursive(_, Some(RawSelector::Parent(_))) => true,
        Segment::Bracket(_, BracketSelector::Parent(_)) => true,
        Segment::Bracket(_, BracketSelector::Path(p)) => spec_segments_has_parent(p.segments@),
        Segment::Bracket(_, BracketSelector::Filter(f)) => spec_expr_has_parent(f.inner),
        Segment::Bracket(_, BracketSelector::Union(comps)) => spec_components_has_parent(comps@),
        _ => false,
    }
}

/// Whether any component of a union navigates to a parent.
pub open spec fn spec_components_has_parent(cs: Seq<UnionComponent>) -> bool
    decreases cs,
{
    exists|i: int| 0 <= i < cs.len() && spec_component_has_parent(cs[i])
}

/// Whether one union component navigates to a parent, directly or through
/// a nested sub-path or filter.
pub open spec fn spec_component_has_parent(c: UnionComponent) -> bool
    decreases c,
{
    match c {
        UnionComponent::Parent(_) => true,
        UnionComponent::Path(p) => spec_segments_has_parent(p.segments@),
        UnionComponent::Filter(f) => spec_expr_has_parent(f.inner),
        _ => false,
    }
}

/// Whether a filter expression navigates to a parent through a sub-path.
pub open spec fn spec_expr_has_parent(e: FilterExpr) -> bool
    decreases e,
{
    match e {
        FilterExpr::Unary(_, inner) => spec_expr_has_parent(*inner),
        FilterExpr::Binary(left, _, right) => spec_expr_has_parent(*left) || spec_expr_has_parent(
            *right,
        ),
        FilterExpr::Parens(_, inner) => spec_expr_has_parent(*inner),
        FilterExpr::Path(p) => spec_segments_has_parent(p.segments@),
        _ => false,
    }
}

/// Whether any segment of the slice navigates to a parent.
#[verifier::loop_isolation(false)]
fn slice_has_parent(ss: &[Segment]) -> (r: bool)
    ensures
        r == spec_segments_has_parent(ss@),
    decreases ss@,
{
    let n = ss.len();
    let mut i: usize = 0;
    while i < n
        invariant
            i <= n,
            forall|j: int| 0 <= j < i as int ==> !spec_segment_has_parent(ss@[j]),
        decreases n - i,
    {
        if segment_has_parent(&ss[i]) {
            return true;
        }
        i += 1;
    }
    false
}

/// Whether a segment navigates to a parent, directly or through a nested
/// sub-path or filter.
fn segment_has_parent(s: &Segment) -> (r: bool)
    ensures
        r == spec_segment_has_parent(*s),
    decreases s,
{
    match s {
        Segment::Dot(_, RawSelector::Parent(_)) => true,
        Segment::Recursive(_, Some(RawSelector::Parent(_))) => true,
        Segment::Bracket(_, BracketSelector::Parent(_)) => true,
        Segment::Bracket(_, BracketSelector::Path(p)) => slice_has_parent(p.segments.as_slice()),
        Segment::Bracket(_, BracketSelector::Filter(f)) => expr_has_parent(&f.inner),
        Segment::Bracket(_, BracketSelector::Union(comps)) => components_has_parent(comps),
        _ => false,
    }
}

/// Whether any component of a union navigates to a parent.
#[verifier::loop_isolation(false)]
fn components_has_parent(cs: &Vec<UnionComponent>) -> (r: bool)
    ensures
        r == spec_components_has_parent(cs@),
    decreases cs@,
{
    let n = cs.len();
    let mut i: usize = 0;
    while i < n
        invariant
            i <= n,
            forall|j: int| 0 <= j < i as int ==> !spec_component_has_parent(cs@[j]),
        decreases n - i,
    {
        let found = match &cs[i] {
            UnionComponent::Parent(_) => true,
            UnionComponent::Path(p) => slice_has_parent(p.segments.as_slice()),
            UnionComponent::Filter(f) => expr_has_parent(&f.inner),
            _ => false,
        };
        if found {
            return true;
        }
        i += 1;
    }
    false
}

/// Whether a filter expression navigates to a parent through a sub-path.
fn expr_has_parent(e: &FilterExpr) -> (r: bool)
    ensures
        r == spec_expr_has_parent(*e),
    decreases e,
{
    match e {
        FilterExpr::Unary(_, inner) => expr_has_parent(inner),
        FilterExpr::Binary(left, _, right) => {
            let l = expr_has_parent(left);
            if l {
                true
            } else {
                expr_has_parent(right)
            }
        },
        FilterExpr::Parens(_, inner) => expr_has_parent(inner),
        FilterExpr::Path(p) => slice_has_parent(p.segments.as_slice()),
        _ => false,
    }
}

impl Path {
    /// Whether this path ever navigates to a parent, directly or through a
    /// nested sub-path or filter.
    pub fn has_parent(&self) -> (r: bool)
        ensures
            r == spec_segments_has_parent(self.segments@),
    {
        slice_has_parent(self.segments.as_slice())
    }
}

impl SubPath {
    /// Whether this sub-path ever navigates to a parent, directly or through
    /// a nested sub-path or filter.
    pub fn has_parent(&self) -> (r: bool)
        ensures
            r == spec_segments_has_parent(self.segments@),
    {
        slice_has_parent(self.segments.as_slice())
    }
}

impl Filter {
    /// Whether this filter's expression navigates to a parent.
    pub fn has_parent(&self) -> (r: bool)
        ensures
            r == spec_expr_has_parent(self.inner),
    {
        expr_has_parent(&self.inner)
    }
}

impl FilterExpr {
    /// Whether this expression navigates to a parent through a sub-path.
    pub fn has_parent(&self) -> (r: bool)
        ensures
            r == spec_expr_has_parent(*self),
    {
        expr_has_parent(self)
    }
}

// Source spans

/// The span of a segment.
fn segment_span(s: &Segment) -> Span
    decreases s,
{
    match s {
        Segment::Dot(d, i) => d.join(raw_selector_span(i)),
        Segment::Bracket(b, i) => b.join(bracket_selector_span(i)),
        Segment::Recursive(r, i) => match i {
            Some(i) => r.join(raw_selector_span(i)),
            None => *r,
        },
    }
}

/// The span of a raw selector.
fn raw_selector_span(s: &RawSelector) -> Span {
    match s {
        RawSelector::Wildcard(sp) => *sp,
        RawSelector::Parent(sp) => *sp,
        RawSelector::Name(i) => i.span,
    }
}

/// The smallest span covering `base` and every segment of the slice.
#[verifier::loop_isolation(false)]
fn segments_join(base: Span, ss: &[Segment]) -> Span
    decreases ss@,
{
    let mut out = base;
    let n = ss.len();
    let mut i: usize = 0;
    while i < n
        invariant
            i <= n,
        decreases n - i,
    {
        out = out.join(segment_span(&ss[i]));
        i += 1;
    }
    out
}

/// The span of a bracket selector.
#[verifier::loop_isolation(false)]
fn bracket_selector_span(b: &BracketSelector) -> Span
    decreases b,
{
    match b {
        BracketSelector::Union(comps) => {
            let n = comps.len();
            if n == 0 {
                Span::new(0, 0)
            } else {
                let mut out = union_component_span(&comps[0]);
                let mut i: usize = 1;
                while i < n
                    invariant
                        1 <= i <= n,
                        n == comps@.len(),
                    decreases n - i,
                {
                    out = out.join(union_component_span(&comps[i]));
                    i += 1;
                }
                out
            }
        },
        BracketSelector::StepRange(sr) => step_range_span(sr),
        BracketSelector::Range(r) => range_span(r),
        BracketSelector::Wildcard(sp) => *sp,
        BracketSelector::Parent(sp) => *sp,
        BracketSelector::Path(sp) => subpath_span(sp),
        BracketSelector::Filter(f) => filter_span(f),
        BracketSelector::Literal(lit) => bracket_lit_span(lit),
    }
}

/// The span of a union component.
fn union_component_span(u: &UnionComponent) -> Span
    decreases u,
{
    match u {
        UnionComponent::StepRange(sr) => step_range_span(sr),
        UnionComponent::Range(r) => range_span(r),
        UnionComponent::Parent(sp) => *sp,
        UnionComponent::Path(sp) => subpath_span(sp),
        UnionComponent::Filter(f) => filter_span(f),
        UnionComponent::Literal(lit) => bracket_lit_span(lit),
    }
}

/// The span of a sub-path.
fn subpath_span(p: &SubPath) -> Span
    decreases p,
{
    let base = match &p.kind {
        PathKind::Root(sp) => *sp,
        PathKind::Relative(sp) => *sp,
    };
    let out = segments_join(base, p.segments.as_slice());
    match &p.tilde {
        Some(t) => out.join(*t),
        None => out,
    }
}

/// The span of a filter.
fn filter_span(f: &Filter) -> Span
    decreases f,
{
    f.question.join(f.paren).join(expr_span(&f.inner))
}

/// The span of a filter expression.
fn expr_span(e: &FilterExpr) -> Span
    decreases e,
{
    match e {
        FilterExpr::Unary(op, expr) => un_op_span(op).join(expr_span(expr)),
        FilterExpr::Binary(lhs, op, rhs) => expr_span(lhs).join(bin_op_span(op)).join(
            expr_span(rhs),
        ),
        FilterExpr::Path(sp) => subpath_span(sp),
        FilterExpr::Lit(el) => expr_lit_span(el),
        FilterExpr::Parens(p, expr) => p.join(expr_span(expr)),
    }
}

/// The span of a step range.
fn step_range_span(sr: &StepRange) -> Span {
    let mut out = match &sr.start {
        Some(s) => s.span.join(sr.colon1),
        None => sr.colon1,
    };
    if let Some(end) = &sr.end {
        out = out.join(end.span);
    }
    out = out.join(sr.colon2);
    if let Some(step) = &sr.step {
        out = out.join(step.span);
    }
    out
}

/// The span of a plain range.
fn range_span(r: &Range) -> Span {
    let mut out = match &r.start {
        Some(s) => s.span.join(r.colon),
        None => r.colon,
    };
    if let Some(end) = &r.end {
        out = out.join(end.span);
    }
    out
}

/// The span of a bracket literal.
fn bracket_lit_span(lit: &BracketLit) -> Span {
    match lit {
        BracketLit::Int(i) => i.span,
        BracketLit::String(s) => string_lit_span(s),
    }
}

/// The span of an expression literal.
fn expr_lit_span(lit: &ExprLit) -> Span {
    match lit {
        ExprLit::Int(i) => i.span,
        ExprLit::String(s) => string_lit_span(s),
        ExprLit::Bool(b) => b.span,
        ExprLit::Null(n) => n.span,
    }
}

/// The span of a string literal.
fn string_lit_span(s: &StringLit) -> Span {
    match s {
        StringLit::Single(s) => s.start.join(s.content.span).join(s.end),
        StringLit::Double(s) => s.start.join(s.content.span).join(s.end),
    }
}

/// The span of an unary operator.
fn un_op_span(op: &UnOp) -> Span {
    match op {
        UnOp::Neg(sp) => *sp,
        UnOp::Not(sp) => *sp,
    }
}

/// The span of a binary operator.
fn bin_op_span(op: &BinOp) -> Span {
    match op {
        BinOp::And(sp) => *sp,
        BinOp::Or(sp) => *sp,
        BinOp::Eq(sp) => *sp,
        BinOp::Le(sp) => *sp,
        BinOp::Lt(sp) => *sp,
        BinOp::Gt(sp) => *sp,
        BinOp::Ge(sp) => *sp,
        BinOp::Add(sp) => *sp,
        BinOp::Sub(sp) => *sp,
        BinOp::Mul(sp) => *sp,
        BinOp::Div(sp) => *sp,
        BinOp::Rem(sp) => *sp,
    }
}

impl Spanned for Ident {
    fn span(&self) -> Span {
        self.span
    }
}

impl Spanned for BoolLit {
    fn span(&self) -> Span {
        self.span
    }
}

impl Spanned for NullLit {
    fn span(&self) -> Span {
        self.span
    }
}

impl Spanned for IntLit {
    fn span(&self) -> Span {
        self.span
    }
}

impl Spanned for NonZeroIntLit {
    fn span(&self) -> Span {
        self.span
    }
}

impl Spanned for StringContent {
    fn span(&self) -> Span {
        self.span
    }
}

impl Spanned for SingleStringLit {
    fn span(&self) -> Span {
        self.start.join(self.content.span).join(self.end)
    }
}

impl Spanned for DoubleStringLit {
    fn span(&self) -> Span {
        self.start.join(self.content.span).join(self.end)
    }
}

impl Spanned for StringLit {
    fn span(&self) -> Span {
        string_lit_span(self)
    }
}

impl Spanned for Path {
    fn span(&self) -> Span {
        let out = segments_join(self.dollar, self.segments.as_slice());
        match &self.tilde {
            Some(t) => out.join(*t),
            None => out,
        }
    }
}

impl Spanned for SubPath {
    fn span(&self) -> Span {
        subpath_span(self)
    }
}

impl Spanned for PathKind {
    fn span(&self) -> Span {
        match self {
            PathKind::Root(sp) => *sp,
            PathKind::Relative(sp) => *sp,
        }
    }
}

impl Spanned for Segment {
    fn span(&self) -> Span {
        segment_span(self)
    }
}

impl Spanned for RawSelector {
    fn span(&self) -> Span {
        raw_selector_span(self)
    }
}

impl Spanned for UnionComponent {
    fn span(&self) -> Span {
        union_component_span(self)
    }
}

impl Spanned for BracketSelector {
    fn span(&self) -> Span {
        bracket_selector_span(self)
    }
}

impl Spanned for StepRange {
    fn span(&self) -> Span {
        step_range_span(self)
    }
}

impl Spanned for Range {
    fn span(&self) -> Span {
        range_span(self)
    }
}

impl Spanned for BracketLit {
    fn span(&self) -> Span {
        bracket_lit_span(self)
    }
}

impl Spanned for Filter {
    fn span(&self) -> Span {
        filter_span(self)
    }
}

impl Spanned for ExprLit {
    fn span(&self) -> Span {
        expr_lit_span(self)
    }
}

impl Spanned for FilterExpr {
    fn span(&self) -> Span {
        expr_span(self)
    }
}

impl Spanned for UnOp {
    fn span(&self) -> Span {
        un_op_span(self)
    }
}

impl Spanned for BinOp {
    fn span(&self) -> Span {
        bin_op_span(self)
    }
}

} // verus!
