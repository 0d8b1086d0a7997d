//! The evaluator: walks a compiled path over a document, transforming a
//! working set of matched node locations step by step.

use vstd::prelude::*;

use crate::ast::{
    BinOp, BracketLit, BracketSelector, ExprLit, Filter, FilterExpr, Path, PathKind, RawSelector,
    Segment, StringLit, SubPath, UnOp, UnionComponent,
};
use crate::idx::{Idx, IdxModel, IdxPath, path_views};
use crate::value::{
    JsonEntry, JsonModel, JsonValue, child_count_of, child_key_of, child_val_of, entries_view,
    key_position, lemma_child_key_get, lemma_resolve_parent, lemma_resolve_snoc,
    lemma_resolve_wf, model_get, model_resolve, model_wf, obj_index,
};

verus! {

broadcast use {vstd::std_specs::vec::group_vec_axioms, vstd::seq::group_seq_axioms};

/// Type of a value met during evaluation, for error reports.
#[derive(Copy, Clone, Debug, PartialEq, Eq, Structural)]
pub enum Type {
    /// `null`
    Null,
    /// `true` or `false`
    Bool,
    /// An integer number
    Int,
    /// A fractional number; this engine's documents hold integers only, so
    /// the tag appears solely as the expectation of numeric operators
    Float,
    /// Any number
    Number,
    /// A string
    String,
    /// An array
    Array,
    /// An object
    Object,
}

/// The evaluation type tag of a document node.
pub open spec fn spec_ty(m: JsonModel) -> Type {
    match m {
        JsonModel::Null => Type::Null,
        JsonModel::Bool(_) => Type::Bool,
        JsonModel::Int(_) => Type::Int,
        JsonModel::Str(_) => Type::String,
        JsonModel::Arr(_) => Type::Array,
        JsonModel::Obj(_) => Type::Object,
    }
}

/// Mathematical abstraction of an evaluation failure: the view of
/// [`EvalErr`]. The human-readable message of `Unsupported` is not part of
/// the abstraction.
pub enum EvalErrModel {
    /// An operator met a value of the wrong type
    MismatchedTypes(Type, Type),
    /// A sub-path that had to match exactly one value matched none
    MatchedNone,
    /// A sub-path that had to match exactly one value matched several
    MatchedMany,
    /// An operation outside what the engine supports
    Unsupported,
    /// A key or index could not be produced for a matched node
    BadIdx,
}

/// An error produced by the strict evaluation mode.
#[derive(Debug)]
pub enum EvalErr {
    /// An operator met a value of the wrong type
    MismatchedTypes {
        /// Type that was expected
        expected: Type,
        /// Type that was found
        found: Type,
    },
    /// A sub-path that had to match exactly one value matched none
    MatchedNone,
    /// A sub-path that had to match exactly one value matched several
    MatchedMany,
    /// An operation outside what the engine supports, with a description
    Unsupported(String),
    /// A key or index could not be produced for a matched node
    BadIdx,
}

impl View for EvalErr {
    type V = EvalErrModel;

    open spec fn view(&self) -> EvalErrModel {
        match self {
            EvalErr::MismatchedTypes { expected, found } => EvalErrModel::MismatchedTypes(
                *expected,
                *found,
            ),
            EvalErr::MatchedNone => EvalErrModel::MatchedNone,
            EvalErr::MatchedMany => EvalErrModel::MatchedMany,
            EvalErr::Unsupported(_) => EvalErrModel::Unsupported,
            EvalErr::BadIdx => EvalErrModel::BadIdx,
        }
    }
}

impl JsonValue {
    /// The evaluation type tag of this value.
    pub fn ty(&self) -> (r: Type)
        ensures
            r == spec_ty(self@),
    {
        match self {
            JsonValue::Null => Type::Null,
            JsonValue::Bool(_) => Type::Bool,
            JsonValue::Int(_) => Type::Int,
            JsonValue::Str(_) => Type::String,
            JsonValue::Array(_) => Type::Array,
            JsonValue::Object(_) => Type::Object,
        }
    }

    /// This value as a boolean, or a type-mismatch error.
    pub fn try_bool(&self) -> (r: Result<bool, EvalErr>)
        ensures
            match r {
                Ok(b) => self@ == JsonModel::Bool(b),
                Err(e) => !(self@ is Bool) && e@ == EvalErrModel::MismatchedTypes(
                    Type::Bool,
                    spec_ty(self@),
                ),
            },
    {
        match self.as_bool() {
            Some(b) => Ok(b),
            None => Err(EvalErr::MismatchedTypes { expected: Type::Bool, found: self.ty() }),
        }
    }

    /// This value as an integer, or a type-mismatch error.
    pub fn try_i64(&self) -> (r: Result<i64, EvalErr>)
        ensures
            match r {
                Ok(i) => self@ == JsonModel::Int(i),
                Err(e) => !(self@ is Int) && e@ == EvalErrModel::MismatchedTypes(
                    Type::Int,
                    spec_ty(self@),
                ),
            },
    {
        match self.as_i64() {
            Some(i) => Ok(i),
            None => Err(EvalErr::MismatchedTypes { expected: Type::Int, found: self.ty() }),
        }
    }

    /// This value as a number for a coercing comparison, or a type-mismatch
    /// error reported against the numeric expectation.
    pub fn try_num(&self) -> (r: Result<i64, EvalErr>)
        ensures
            match r {
                Ok(i) => self@ == JsonModel::Int(i),
                Err(e) => !(self@ is Int) && e@ == EvalErrModel::MismatchedTypes(
                    Type::Float,
                    spec_ty(self@),
                ),
            },
    {
        match self.as_i64() {
            Some(i) => Ok(i),
            None => Err(EvalErr::MismatchedTypes { expected: Type::Float, found: self.ty() }),
        }
    }

    /// This value as a string slice, or a type-mismatch error.
    pub fn try_str(&self) -> (r: Result<&str, EvalErr>)
        ensures
            match r {
                Ok(s) => self@ == JsonModel::Str(s@),
                Err(e) => !(self@ is Str) && e@ == EvalErrModel::MismatchedTypes(
                    Type::String,
                    spec_ty(self@),
                ),
            },
    {
        match self.as_str() {
            Some(s) => Ok(s),
            None => Err(EvalErr::MismatchedTypes { expected: Type::String, found: self.ty() }),
        }
    }
}

// Decimal rendering of integer keys

/// The decimal digit character for `d` in `0 ..= 9`.
pub open spec fn decimal_digit(d: int) -> char {
    if d == 0 {
        '0'
    } else if d == 1 {
        '1'
    } else if d == 2 {
        '2'
    } else if d == 3 {
        '3'
    } else if d == 4 {
        '4'
    } else if d == 5 {
        '5'
    } else if d == 6 {
        '6'
    } else if d == 7 {
        '7'
    } else if d == 8 {
        '8'
    } else {
        '9'
    }
}

/// The decimal rendering of a non-negative integer.
pub open spec fn nat_decimal(n: int) -> Seq<char>
    decreases n,
{
    if n < 10 {
        seq![decimal_digit(n)]
    } else {
        nat_decimal(n / 10).push(decimal_digit(n % 10))
    }
}

/// The decimal rendering of an integer, with a leading `-` when negative.
pub open spec fn i64_decimal(n: i64) -> Seq<char> {
    if n < 0 {
        seq!['-'] + nat_decimal(-(n as int))
    } else {
        nat_decimal(n as int)
    }
}

/// Relies on String::push: appends one character to the string.
#[verifier::external_body]
pub(crate) fn push_char(s: &mut String, c: char)
    ensures
        final(s)@ == old(s)@.push(c),
{
    s.push(c);
}

/// Append the decimal rendering of `m` to `s`.
fn push_decimal(s: &mut String, m: u64)
    ensures
        final(s)@ == old(s)@ + nat_decimal(m as int),
    decreases m,
{
    if m >= 10 {
        push_decimal(s, m / 10);
    }
    let d = (m % 10) as u8;
    let c: char = if d == 0 {
        '0'
    } else if d == 1 {
        '1'
    } else if d == 2 {
        '2'
    } else if d == 3 {
        '3'
    } else if d == 4 {
        '4'
    } else if d == 5 {
        '5'
    } else if d == 6 {
        '6'
    } else if d == 7 {
        '7'
    } else if d == 8 {
        '8'
    } else {
        '9'
    };
    push_char(s, c);
    proof {
        if m < 10 {
            assert(old(s)@ + nat_decimal(m as int) =~= old(s)@.push(c));
        } else {
            assert(old(s)@ + nat_decimal(m as int) =~= (old(s)@ + nat_decimal(m as int / 10)).push(
                c,
            ));
        }
    }
}

/// The decimal rendering of an integer as an owned string.
fn i64_to_string(n: i64) -> (r: String)
    ensures
        r@ == i64_decimal(n),
{
    let mut s = String::new();
    if n < 0 {
        push_char(&mut s, '-');
        let m: u64 = if n == i64::MIN {
            9223372036854775808u64
        } else {
            (-n) as u64
        };
        proof {
            assert(m as int == -(n as int));
        }
        push_decimal(&mut s, m);
        proof {
            assert(s@ =~= i64_decimal(n));
        }
    } else {
        push_decimal(&mut s, n as u64);
        proof {
            assert(s@ =~= i64_decimal(n));
        }
    }
    s
}

// The meaning of a path: spec-level evaluation
//
// A matched node is identified by its index path from the document root;
// the working set is a sequence of such paths, in match order.

/// The child paths a wildcard produces for one entry: one per direct child
/// of the node, in order; scalars produce none.
pub open spec fn wildcard_entry(root: JsonModel, p: Seq<IdxModel>) -> Seq<Seq<IdxModel>> {
    match model_resolve(root, p) {
        Some(m) => Seq::new(child_count_of(m) as nat, |i: int| p.push(child_key_of(m, i))),
        None => Seq::empty(),
    }
}

/// The path a parent step produces for one entry: the entry's parent, or
/// nothing at the root.
pub open spec fn parent_entry(p: Seq<IdxModel>) -> Seq<Seq<IdxModel>> {
    if p.len() > 0 {
        seq![p.drop_last()]
    } else {
        Seq::empty()
    }
}

/// The path a member-name step produces for one entry: the member when the
/// node is an object that has it, else nothing.
pub open spec fn name_entry(root: JsonModel, p: Seq<IdxModel>, name: Seq<char>) -> Seq<
    Seq<IdxModel>,
> {
    match model_resolve(root, p) {
        Some(m) => if model_get(m, IdxModel::Key(name)) is Some {
            seq![p.push(IdxModel::Key(name))]
        } else {
            Seq::empty()
        },
        None => Seq::empty(),
    }
}

/// What a raw selector produces for one entry of the working set.
pub open spec fn raw_sel_entry(root: JsonModel, sel: RawSelector, p: Seq<IdxModel>) -> Seq<
    Seq<IdxModel>,
> {
    match sel {
        RawSelector::Wildcard(_) => wildcard_entry(root, p),
        RawSelector::Parent(_) => parent_entry(p),
        RawSelector::Name(name) => name_entry(root, p, name.val@),
    }
}

/// The paths of a node and all its descendants, in pre-order: the node
/// itself first, then each child's subtree in order.
pub open spec fn descendant_paths(m: JsonModel, p: Seq<IdxModel>) -> Seq<Seq<IdxModel>>
    decreases m, child_count_of(m) + 1,
{
    seq![p] + descendant_children(m, p, 0)
}

/// The pre-order subtrees of the children of `m` from child `i` on.
pub open spec fn descendant_children(m: JsonModel, p: Seq<IdxModel>, i: int) -> Seq<Seq<IdxModel>>
    decreases m, child_count_of(m) - i,
{
    if i < 0 || i >= child_count_of(m) {
        Seq::empty()
    } else {
        descendant_paths(child_val_of(m, i), p.push(child_key_of(m, i))) + descendant_children(
            m,
            p,
            i + 1,
        )
    }
}

/// What a recursive-descent step produces for one entry.
pub open spec fn descend_entry(root: JsonModel, p: Seq<IdxModel>) -> Seq<Seq<IdxModel>> {
    match model_resolve(root, p) {
        Some(m) => descendant_paths(m, p),
        None => Seq::empty(),
    }
}

/// An array-slice endpoint, resolved against an array length: negative
/// values count back from the end and clamp to the start, positive values
/// clamp to the length.
pub open spec fn bound_idx(len: int, x: int) -> int {
    if x < 0 {
        if len + x < 0 {
            0
        } else {
            len + x
        }
    } else {
        if x > len {
            len
        } else {
            x
        }
    }
}

/// The child paths of a forward slice walked with a stride.
pub open spec fn fwd_paths(p: Seq<IdxModel>, s: int, e: int, stride: int) -> Seq<Seq<IdxModel>>
    decreases e - s,
{
    if stride <= 0 || s >= e {
        Seq::empty()
    } else {
        seq![p.push(IdxModel::Arr(s))] + fwd_paths(
            p,
            if s + stride > e {
                e
            } else {
                s + stride
            },
            e,
            stride,
        )
    }
}

/// The child paths of a backward slice walked with a stride, starting at
/// `hi` and never passing `lo`.
pub open spec fn rev_paths(p: Seq<IdxModel>, hi: int, lo: int, stride: int) -> Seq<Seq<IdxModel>>
    decreases hi - lo + 1,
{
    if stride <= 0 || hi < lo {
        Seq::empty()
    } else {
        seq![p.push(IdxModel::Arr(hi))] + rev_paths(
            p,
            if hi - stride < lo - 1 {
                lo - 1
            } else {
                hi - stride
            },
            lo,
            stride,
        )
    }
}

/// The effective start bound of a slice.
pub open spec fn slice_start(len: int, start: Option<i64>) -> int {
    bound_idx(len, match start {
        Some(s) => s as int,
        None => 0,
    })
}

/// The effective end bound of a slice.
pub open spec fn slice_end(len: int, end: Option<i64>) -> int {
    bound_idx(len, match end {
        Some(e) => e as int,
        None => i64::MAX as int,
    })
}

/// What a plain range selector produces for one entry: the slice of an
/// array between its effective bounds; anything else produces nothing.
pub open spec fn range_entry(
    root: JsonModel,
    p: Seq<IdxModel>,
    start: Option<i64>,
    end: Option<i64>,
) -> Seq<Seq<IdxModel>> {
    match model_resolve(root, p) {
        Some(JsonModel::Arr(v)) => {
            let s = slice_start(v.len() as int, start);
            let e = slice_end(v.len() as int, end);
            fwd_paths(p, s, e, 1)
        },
        _ => Seq::empty(),
    }
}

/// What a stepped range selector produces for one entry: every `stride`-th
/// position of the slice, walked backwards when the step is negative.
pub open spec fn step_range_entry(
    root: JsonModel,
    p: Seq<IdxModel>,
    start: Option<i64>,
    end: Option<i64>,
    step: i64,
) -> Seq<Seq<IdxModel>> {
    match model_resolve(root, p) {
        Some(JsonModel::Arr(v)) => {
            let s = slice_start(v.len() as int, start);
            let e = slice_end(v.len() as int, end);
            if step < 0 {
                rev_paths(p, e - 1, s, -(step as int))
            } else {
                fwd_paths(p, s, e, step as int)
            }
        },
        _ => Seq::empty(),
    }
}

/// What an integer bracket literal produces for one entry: the array
/// element at that position, counting back from the end when negative;
/// objects and scalars produce nothing.
pub open spec fn int_lit_entry(root: JsonModel, p: Seq<IdxModel>, i: i64) -> Seq<Seq<IdxModel>> {
    match model_resolve(root, p) {
        Some(JsonModel::Arr(v)) => {
            let eff = if i < 0 {
                v.len() + i
            } else {
                i as int
            };
            if 0 <= eff < v.len() {
                seq![p.push(IdxModel::Arr(eff))]
            } else {
                Seq::empty()
            }
        },
        _ => Seq::empty(),
    }
}

/// What a string bracket literal produces for one entry: the object member
/// with that key, when present; arrays and scalars produce nothing.
pub open spec fn str_lit_entry(root: JsonModel, p: Seq<IdxModel>, k: Seq<char>) -> Seq<
    Seq<IdxModel>,
> {
    match model_resolve(root, p) {
        Some(m) => if m is Obj && model_get(m, IdxModel::Key(k)) is Some {
            seq![p.push(IdxModel::Key(k))]
        } else {
            Seq::empty()
        },
        None => Seq::empty(),
    }
}

/// What a bracket literal produces for one entry.
pub open spec fn lit_entry(root: JsonModel, p: Seq<IdxModel>, lit: BracketLit) -> Seq<
    Seq<IdxModel>,
> {
    match lit {
        BracketLit::Int(i) => int_lit_entry(root, p, i.val),
        BracketLit::String(s) => str_lit_entry(root, p, crate::ast::string_lit_val(s)),
    }
}

// Filter expressions

/// The value a filter expression evaluates to with `@` bound to the node at
/// `cur`, or the first failure.
pub open spec fn spec_eval_expr(root: JsonModel, cur: Seq<IdxModel>, e: FilterExpr) -> Result<
    JsonModel,
    EvalErrModel,
>
    decreases e, 0int, 0int,
{
    match e {
        FilterExpr::Unary(op, inner) => spec_eval_unary(root, cur, op, *inner),
        FilterExpr::Binary(lhs, op, rhs) => {
            let l = spec_eval_expr(root, cur, *lhs);
            let r = spec_eval_expr(root, cur, *rhs);
            match (l, r) {
                (Ok(l), Ok(r)) => spec_eval_binary(op, l, r),
                (Err(e1), _) => Err(e1),
                (_, Err(e2)) => Err(e2),
            }
        },
        FilterExpr::Path(sp) => spec_eval_expr_path(root, cur, sp),
        FilterExpr::Lit(lit) => Ok(spec_lit_value(lit)),
        FilterExpr::Parens(_, inner) => spec_eval_expr(root, cur, *inner),
    }
}

/// The value of a literal in a filter expression.
pub open spec fn spec_lit_value(lit: ExprLit) -> JsonModel {
    match lit {
        ExprLit::Int(i) => JsonModel::Int(i.val),
        ExprLit::String(s) => JsonModel::Str(crate::ast::string_lit_val(s)),
        ExprLit::Bool(b) => JsonModel::Bool(b.val),
        ExprLit::Null(_) => JsonModel::Null,
    }
}

/// The value of a unary operator applied to its operand's value.
pub open spec fn spec_eval_unary(
    root: JsonModel,
    cur: Seq<IdxModel>,
    op: UnOp,
    inner: FilterExpr,
) -> Result<JsonModel, EvalErrModel>
    decreases inner, 1int, 0int,
{
    match spec_eval_expr(root, cur, inner) {
        Err(err) => Err(err),
        Ok(v) => spec_unary_value(op, v),
    }
}

/// The value of a unary operator applied to an operand value: negation of a
/// number (wrapping at the smallest integer) or complement of a boolean.
pub open spec fn spec_unary_value(op: UnOp, v: JsonModel) -> Result<JsonModel, EvalErrModel> {
    match op {
        UnOp::Neg(_) => match v {
            JsonModel::Int(n) => Ok(
                JsonModel::Int(
                    if n == i64::MIN {
                        i64::MIN
                    } else {
                        (-n) as i64
                    },
                ),
            ),
            _ => Err(EvalErrModel::MismatchedTypes(Type::Number, spec_ty(v))),
        },
        UnOp::Not(_) => match v {
            JsonModel::Bool(b) => Ok(JsonModel::Bool(!b)),
            _ => Err(EvalErrModel::MismatchedTypes(Type::Bool, spec_ty(v))),
        },
    }
}

/// The value of a binary operator applied to its operands' values: boolean
/// connectives on booleans, `==` as structural equality, order comparisons
/// on numbers, `+` on numbers or strings, the other arithmetic on numbers,
/// wrapping on overflow.
pub open spec fn spec_eval_binary(op: BinOp, l: JsonModel, r: JsonModel) -> Result<
    JsonModel,
    EvalErrModel,
> {
    match op {
        BinOp::And(_) => match (l, r) {
            (JsonModel::Bool(a), JsonModel::Bool(b)) => Ok(JsonModel::Bool(a && b)),
            (JsonModel::Bool(_), _) => Err(EvalErrModel::MismatchedTypes(Type::Bool, spec_ty(r))),
            _ => Err(EvalErrModel::MismatchedTypes(Type::Bool, spec_ty(l))),
        },
        BinOp::Or(_) => match (l, r) {
            (JsonModel::Bool(a), JsonModel::Bool(b)) => Ok(JsonModel::Bool(a || b)),
            (JsonModel::Bool(_), _) => Err(EvalErrModel::MismatchedTypes(Type::Bool, spec_ty(r))),
            _ => Err(EvalErrModel::MismatchedTypes(Type::Bool, spec_ty(l))),
        },
        BinOp::Eq(_) => Ok(JsonModel::Bool(l == r)),
        BinOp::Le(_) => match (l, r) {
            (JsonModel::Int(a), JsonModel::Int(b)) => Ok(JsonModel::Bool(a <= b)),
            (JsonModel::Int(_), _) => Err(EvalErrModel::MismatchedTypes(Type::Float, spec_ty(r))),
            _ => Err(EvalErrModel::MismatchedTypes(Type::Float, spec_ty(l))),
        },
        BinOp::Lt(_) => match (l, r) {
            (JsonModel::Int(a), JsonModel::Int(b)) => Ok(JsonModel::Bool(a < b)),
            (JsonModel::Int(_), _) => Err(EvalErrModel::MismatchedTypes(Type::Float, spec_ty(r))),
            _ => Err(EvalErrModel::MismatchedTypes(Type::Float, spec_ty(l))),
        },
        BinOp::Gt(_) => match (l, r) {
            (JsonModel::Int(a), JsonModel::Int(b)) => Ok(JsonModel::Bool(a > b)),
            (JsonModel::Int(_), _) => Err(EvalErrModel::MismatchedTypes(Type::Float, spec_ty(r))),
            _ => Err(EvalErrModel::MismatchedTypes(Type::Float, spec_ty(l))),
        },
        BinOp::Ge(_) => match (l, r) {
            (JsonModel::Int(a), JsonModel::Int(b)) => Ok(JsonModel::Bool(a >= b)),
            (JsonModel::Int(_), _) => Err(EvalErrModel::MismatchedTypes(Type::Float, spec_ty(r))),
            _ => Err(EvalErrModel::MismatchedTypes(Type::Float, spec_ty(l))),
        },
        BinOp::Add(_) => match (l, r) {
            (JsonModel::Int(a), JsonModel::Int(b)) => Ok(JsonModel::Int(a.wrapping_add(b))),
            (JsonModel::Str(a), JsonModel::Str(b)) => Ok(JsonModel::Str(a + b)),
            _ => Err(EvalErrModel::Unsupported),
        },
        BinOp::Sub(_) => match (l, r) {
            (JsonModel::Int(a), JsonModel::Int(b)) => Ok(JsonModel::Int(a.wrapping_sub(b))),
            (JsonModel::Int(_), _) => Err(EvalErrModel::MismatchedTypes(Type::Float, spec_ty(r))),
            _ => Err(EvalErrModel::MismatchedTypes(Type::Float, spec_ty(l))),
        },
        BinOp::Mul(_) => match (l, r) {
            (JsonModel::Int(a), JsonModel::Int(b)) => Ok(JsonModel::Int(a.wrapping_mul(b))),
            (JsonModel::Int(_), _) => Err(EvalErrModel::MismatchedTypes(Type::Float, spec_ty(r))),
            _ => Err(EvalErrModel::MismatchedTypes(Type::Float, spec_ty(l))),
        },
        BinOp::Div(_) => match (l, r) {
            (JsonModel::Int(a), JsonModel::Int(b)) => if b == 0 {
                Err(EvalErrModel::Unsupported)
            } else {
                Ok(
                    JsonModel::Int(
                        match a.checked_div(b) {
                            Some(q) => q,
                            None => i64::MIN,
                        },
                    ),
                )
            },
            (JsonModel::Int(_), _) => Err(EvalErrModel::MismatchedTypes(Type::Float, spec_ty(r))),
            _ => Err(EvalErrModel::MismatchedTypes(Type::Float, spec_ty(l))),
        },
        BinOp::Rem(_) => match (l, r) {
            (JsonModel::Int(a), JsonModel::Int(b)) => if b == 0 {
                Err(EvalErrModel::Unsupported)
            } else {
                Ok(
                    JsonModel::Int(
                        match a.checked_rem(b) {
                            Some(q) => q,
                            None => 0,
                        },
                    ),
                )
            },
            (JsonModel::Int(_), _) => Err(EvalErrModel::MismatchedTypes(Type::Int, spec_ty(r))),
            _ => Err(EvalErrModel::MismatchedTypes(Type::Int, spec_ty(l))),
        },
    }
}

/// The value of a sub-path reference in a filter expression: the sub-path
/// must match exactly one node; with an id marker the node's own key stands
/// in for its value.
pub open spec fn spec_eval_expr_path(root: JsonModel, cur: Seq<IdxModel>, sp: SubPath) -> Result<
    JsonModel,
    EvalErrModel,
>
    decreases sp, 2int, 0int,
{
    let base: Seq<IdxModel> = match sp.kind {
        PathKind::Root(_) => Seq::empty(),
        PathKind::Relative(_) => cur,
    };
    let results = spec_eval_segments(root, sp.segments@, 0, seq![base]);
    if results.len() == 0 {
        Err(EvalErrModel::MatchedNone)
    } else if results.len() > 1 {
        Err(EvalErrModel::MatchedMany)
    } else {
        let q = results[0];
        if sp.tilde is Some {
            if q.len() > 0 {
                match q.last() {
                    IdxModel::Arr(n) => if 0 <= n <= i64::MAX {
                        Ok(JsonModel::Int(n as i64))
                    } else {
                        Err(EvalErrModel::BadIdx)
                    },
                    IdxModel::Key(k) => Ok(JsonModel::Str(k)),
                }
            } else {
                Err(EvalErrModel::BadIdx)
            }
        } else {
            match model_resolve(root, q) {
                Some(v) => Ok(v),
                None => Err(EvalErrModel::BadIdx),
            }
        }
    }
}

/// The kept child paths of a filter for one entry, from child `k` on: a
/// child stays when the predicate evaluates to exactly `true` on it; a
/// failed evaluation drops the child.
pub open spec fn filter_children(
    root: JsonModel,
    p: Seq<IdxModel>,
    node: JsonModel,
    e: FilterExpr,
    k: int,
) -> Seq<Seq<IdxModel>>
    decreases e, 3int, child_count_of(node) - k,
{
    if k < 0 || k >= child_count_of(node) {
        Seq::empty()
    } else {
        let cp = p.push(child_key_of(node, k));
        let keep = spec_eval_expr(root, cp, e) == Ok::<JsonModel, EvalErrModel>(
            JsonModel::Bool(true),
        );
        (if keep {
            seq![cp]
        } else {
            Seq::empty()
        }) + filter_children(root, p, node, e, k + 1)
    }
}

/// What a filter produces for one entry: the children of the node on which
/// the predicate holds.
pub open spec fn filter_entry(root: JsonModel, p: Seq<IdxModel>, e: FilterExpr) -> Seq<
    Seq<IdxModel>,
>
    decreases e, 4int, 0int,
{
    match model_resolve(root, p) {
        Some(node) => filter_children(root, p, node, e, 0),
        None => Seq::empty(),
    }
}

/// What one result of a bracket sub-path contributes for one entry: the
/// result's value (or, with an id marker, its key) is used as an index into
/// the node at `p`: a number indexes an array, a string or number names an
/// object member.
pub open spec fn match_convert(
    root: JsonModel,
    p: Seq<IdxModel>,
    q: Seq<IdxModel>,
    tilde: bool,
) -> Seq<Seq<IdxModel>> {
    let keyval: Option<JsonModel> = if tilde {
        if q.len() > 0 {
            match q.last() {
                IdxModel::Arr(n) => if 0 <= n <= i64::MAX {
                    Some(JsonModel::Int(n as i64))
                } else {
                    None
                },
                IdxModel::Key(k) => Some(JsonModel::Str(k)),
            }
        } else {
            None
        }
    } else {
        model_resolve(root, q)
    };
    match (model_resolve(root, p), keyval) {
        (Some(JsonModel::Arr(v)), Some(JsonModel::Int(n))) => {
            let eff = if n < 0 {
                v.len() + n
            } else {
                n as int
            };
            if 0 <= eff < v.len() {
                seq![p.push(IdxModel::Arr(eff))]
            } else {
                Seq::empty()
            }
        },
        (Some(JsonModel::Obj(es)), Some(kv)) => {
            let key: Option<Seq<char>> = match kv {
                JsonModel::Str(s) => Some(s),
                JsonModel::Int(n) => Some(i64_decimal(n)),
                _ => None,
            };
            match key {
                Some(k) => if obj_index(es, k) < es.len() {
                    seq![p.push(IdxModel::Key(k))]
                } else {
                    Seq::empty()
                },
                None => Seq::empty(),
            }
        },
        _ => Seq::empty(),
    }
}


/// What a bracket sub-path selector produces for one entry: the sub-path,
/// evaluated from the root or from the entry, must resolve to exactly one
/// node, and that node's value (or, with an id marker, its key) is used as
/// a dynamic index into the entry's node. Zero or several sub-path matches
/// contribute nothing.
pub open spec fn match_entry(root: JsonModel, p: Seq<IdxModel>, sp: SubPath) -> Seq<Seq<IdxModel>>
    decreases sp, 2int, 0int,
{
    let base: Seq<IdxModel> = match sp.kind {
        PathKind::Root(_) => Seq::empty(),
        PathKind::Relative(_) => p,
    };
    let results = spec_eval_segments(root, sp.segments@, 0, seq![base]);
    if results.len() == 1 {
        match_convert(root, p, results[0], sp.tilde is Some)
    } else {
        Seq::empty()
    }
}

/// The literal value of an optional integer literal.
pub open spec fn opt_lit_val(l: Option<crate::ast::IntLit>) -> Option<i64> {
    match l {
        Some(l) => Some(l.val),
        None => None,
    }
}

/// The step value of an optional non-zero integer literal, defaulting to 1.
pub open spec fn step_val(l: Option<crate::ast::NonZeroIntLit>) -> i64 {
    match l {
        Some(l) => l.spec_val(),
        None => 1,
    }
}

/// The wildcard results of the working set from entry `i` on, concatenated.
pub open spec fn all_wildcard(root: JsonModel, set: Seq<Seq<IdxModel>>, i: int) -> Seq<Seq<IdxModel>>
    decreases set.len() - i,
{
    if i < 0 || i >= set.len() {
        Seq::empty()
    } else {
        wildcard_entry(root, set[i]) + all_wildcard(root, set, i + 1)
    }
}

/// The parent results of the working set from entry `i` on, concatenated.
pub open spec fn all_parent(set: Seq<Seq<IdxModel>>, i: int) -> Seq<Seq<IdxModel>>
    decreases set.len() - i,
{
    if i < 0 || i >= set.len() {
        Seq::empty()
    } else {
        parent_entry(set[i]) + all_parent(set, i + 1)
    }
}

/// The raw-selector results of the working set from entry `i` on.
pub open spec fn all_raw(root: JsonModel, sel: RawSelector, set: Seq<Seq<IdxModel>>, i: int) -> Seq<
    Seq<IdxModel>,
>
    decreases set.len() - i,
{
    if i < 0 || i >= set.len() {
        Seq::empty()
    } else {
        raw_sel_entry(root, sel, set[i]) + all_raw(root, sel, set, i + 1)
    }
}

/// The recursive-descent results of the working set from entry `i` on.
pub open spec fn all_descend(root: JsonModel, set: Seq<Seq<IdxModel>>, i: int) -> Seq<Seq<IdxModel>>
    decreases set.len() - i,
{
    if i < 0 || i >= set.len() {
        Seq::empty()
    } else {
        descend_entry(root, set[i]) + all_descend(root, set, i + 1)
    }
}

/// The plain-range results of the working set from entry `i` on.
pub open spec fn all_range(
    root: JsonModel,
    start: Option<i64>,
    end: Option<i64>,
    set: Seq<Seq<IdxModel>>,
    i: int,
) -> Seq<Seq<IdxModel>>
    decreases set.len() - i,
{
    if i < 0 || i >= set.len() {
        Seq::empty()
    } else {
        range_entry(root, set[i], start, end) + all_range(root, start, end, set, i + 1)
    }
}

/// The stepped-range results of the working set from entry `i` on.
pub open spec fn all_step_range(
    root: JsonModel,
    start: Option<i64>,
    end: Option<i64>,
    step: i64,
    set: Seq<Seq<IdxModel>>,
    i: int,
) -> Seq<Seq<IdxModel>>
    decreases set.len() - i,
{
    if i < 0 || i >= set.len() {
        Seq::empty()
    } else {
        step_range_entry(root, set[i], start, end, step) + all_step_range(
            root,
            start,
            end,
            step,
            set,
            i + 1,
        )
    }
}

/// The bracket-literal results of the working set from entry `i` on.
pub open spec fn all_lit(root: JsonModel, lit: BracketLit, set: Seq<Seq<IdxModel>>, i: int) -> Seq<
    Seq<IdxModel>,
>
    decreases set.len() - i,
{
    if i < 0 || i >= set.len() {
        Seq::empty()
    } else {
        lit_entry(root, set[i], lit) + all_lit(root, lit, set, i + 1)
    }
}

/// The filter results of the working set from entry `i` on.
pub open spec fn all_filter(root: JsonModel, e: FilterExpr, set: Seq<Seq<IdxModel>>, i: int) -> Seq<
    Seq<IdxModel>,
>
    decreases e, 5int, set.len() - i,
{
    if i < 0 || i >= set.len() {
        Seq::empty()
    } else {
        filter_entry(root, set[i], e) + all_filter(root, e, set, i + 1)
    }
}

/// The bracket sub-path results of the working set from entry `i` on.
pub open spec fn all_match(root: JsonModel, sp: SubPath, set: Seq<Seq<IdxModel>>, i: int) -> Seq<
    Seq<IdxModel>,
>
    decreases sp, 3int, set.len() - i,
{
    if i < 0 || i >= set.len() {
        Seq::empty()
    } else {
        match_entry(root, set[i], sp) + all_match(root, sp, set, i + 1)
    }
}

/// What one union component produces on the working set.
pub open spec fn spec_eval_component(
    root: JsonModel,
    u: UnionComponent,
    set: Seq<Seq<IdxModel>>,
) -> Seq<Seq<IdxModel>>
    decreases u, 5int, 0int,
{
    match u {
        UnionComponent::StepRange(sr) => all_step_range(
            root,
            opt_lit_val(sr.start),
            opt_lit_val(sr.end),
            step_val(sr.step),
            set,
            0,
        ),
        UnionComponent::Range(r) => all_range(root, opt_lit_val(r.start), opt_lit_val(r.end), set, 0),
        UnionComponent::Parent(_) => all_parent(set, 0),
        UnionComponent::Path(sp) => all_match(root, sp, set, 0),
        UnionComponent::Filter(f) => all_filter(root, f.inner, set, 0),
        UnionComponent::Literal(lit) => all_lit(root, lit, set, 0),
    }
}

/// What the union components from `i` on produce: each is evaluated on the
/// same incoming working set and the outputs are concatenated in component
/// order, duplicates kept.
pub open spec fn spec_eval_union(
    root: JsonModel,
    comps: Seq<UnionComponent>,
    i: int,
    set: Seq<Seq<IdxModel>>,
) -> Seq<Seq<IdxModel>>
    decreases comps, 6int, comps.len() - i,
{
    if i < 0 || i >= comps.len() {
        Seq::empty()
    } else {
        spec_eval_component(root, comps[i], set) + spec_eval_union(root, comps, i + 1, set)
    }
}

/// What a bracket selector produces on the working set.
pub open spec fn spec_eval_bracket(
    root: JsonModel,
    b: BracketSelector,
    set: Seq<Seq<IdxModel>>,
) -> Seq<Seq<IdxModel>>
    decreases b, 7int, 0int,
{
    match b {
        BracketSelector::Union(comps) => spec_eval_union(root, comps@, 0, set),
        BracketSelector::StepRange(sr) => all_step_range(
            root,
            opt_lit_val(sr.start),
            opt_lit_val(sr.end),
            step_val(sr.step),
            set,
            0,
        ),
        BracketSelector::Range(r) => all_range(root, opt_lit_val(r.start), opt_lit_val(r.end), set, 0),
        BracketSelector::Wildcard(_) => all_wildcard(root, set, 0),
        BracketSelector::Parent(_) => all_parent(set, 0),
        BracketSelector::Path(sp) => all_match(root, sp, set, 0),
        BracketSelector::Filter(f) => all_filter(root, f.inner, set, 0),
        BracketSelector::Literal(lit) => all_lit(root, lit, set, 0),
    }
}

/// What one path segment produces on the working set.
pub open spec fn spec_eval_segment(root: JsonModel, s: Segment, set: Seq<Seq<IdxModel>>) -> Seq<
    Seq<IdxModel>,
>
    decreases s, 8int, 0int,
{
    match s {
        Segment::Dot(_, sel) => all_raw(root, sel, set, 0),
        Segment::Bracket(_, b) => spec_eval_bracket(root, b, set),
        Segment::Recursive(_, opt) => {
            let flattened = all_descend(root, set, 0);
            match opt {
                Some(sel) => all_raw(root, sel, flattened, 0),
                None => flattened,
            }
        },
    }
}

/// What the segments from `i` on produce, threading the working set through
/// them in order.
pub open spec fn spec_eval_segments(
    root: JsonModel,
    ss: Seq<Segment>,
    i: int,
    set: Seq<Seq<IdxModel>>,
) -> Seq<Seq<IdxModel>>
    decreases ss, 9int, ss.len() - i,
{
    if i < 0 || i >= ss.len() {
        set
    } else {
        spec_eval_segments(root, ss, i + 1, spec_eval_segment(root, ss[i], set))
    }
}

/// The working set a whole path produces on a document: its segments
/// applied in order to the root.
pub open spec fn spec_eval_path(root: JsonModel, ss: Seq<Segment>) -> Seq<Seq<IdxModel>> {
    spec_eval_segments(root, ss, 0, seq![Seq::empty()])
}

// Executable evaluation

/// The node a path names under `root`, or `None`.
fn resolve_node<'a>(root: &'a JsonValue, p: &IdxPath) -> (r: Option<&'a JsonValue>)
    ensures
        match r {
            Some(v) => model_resolve(root@, p@) == Some(v@),
            None => model_resolve(root@, p@) is None,
        },
{
    match p.resolve_on(root) {
        Ok(v) => {
            proof {
                crate::idx::lemma_resolve_full_ok(root@, p@);
            }
            Some(v)
        },
        Err(_) => {
            proof {
                crate::idx::lemma_resolve_full_ok(root@, p@);
            }
            None
        },
    }
}

/// The magnitude of a negative integer.
fn neg_magnitude(x: i64) -> (r: u64)
    requires
        x < 0,
    ensures
        r as int == -(x as int),
{
    if x == i64::MIN {
        9223372036854775808u64
    } else {
        (-x) as u64
    }
}

/// Append the child paths a wildcard produces for one entry.
#[verifier::loop_isolation(false)]
fn wildcard_exec(root: &JsonValue, p: &IdxPath, out: &mut Vec<IdxPath>)
    ensures
        path_views(final(out)@) == path_views(old(out)@) + wildcard_entry(root@, p@),
{
    let ghost base = path_views(old(out)@);
    match resolve_node(root, p) {
        Some(node) => {
            let n = node.child_count();
            let ghost m = node@;
            let ghost full = Seq::new(child_count_of(m) as nat, |k: int| p@.push(child_key_of(m, k)));
            let mut i: usize = 0;
            proof {
                assert(path_views(out@) =~= base + full.take(0));
            }
            while i < n
                invariant
                    i <= n,
                    n as int == child_count_of(m),
                    full == Seq::new(child_count_of(m) as nat, |k: int| p@.push(child_key_of(m, k))),
                    path_views(out@) =~= base + full.take(i as int),
                decreases n - i,
            {
                let c = p.child(node.child_idx(i));
                let ghost cv = c@;
                let ghost prev = out@;
                out.push(c);
                proof {
                    assert(path_views(out@) =~= path_views(prev).push(cv));
                    assert(cv == full[i as int]);
                    assert(full.take(i as int + 1) =~= full.take(i as int).push(full[i as int]));
                    assert(path_views(out@) =~= base + full.take(i as int + 1));
                }
                i += 1;
            }
            proof {
                assert(full.take(n as int) =~= full);
                assert(full =~= wildcard_entry(root@, p@));
            }
        },
        None => {
            proof {
                assert(path_views(out@) =~= base + wildcard_entry(root@, p@));
            }
        },
    }
}

/// Append the parent path a parent step produces for one entry.
fn parent_exec(p: &IdxPath, out: &mut Vec<IdxPath>)
    ensures
        path_views(final(out)@) == path_views(old(out)@) + parent_entry(p@),
{
    let ghost base = path_views(old(out)@);
    if !p.is_empty() {
        out.push(p.parent());
    }
    proof {
        assert(path_views(out@) =~= base + parent_entry(p@));
    }
}

/// Append the member path a name step produces for one entry.
fn name_exec(root: &JsonValue, p: &IdxPath, name: &String, out: &mut Vec<IdxPath>)
    ensures
        path_views(final(out)@) == path_views(old(out)@) + name_entry(root@, p@, name@),
{
    let ghost base = path_views(old(out)@);
    match resolve_node(root, p) {
        Some(node) => {
            match node {
                JsonValue::Object(m) => {
                    match key_position(m, name) {
                        Some(_) => {
                            out.push(p.child(Idx::Object(name.clone())));
                        },
                        None => {},
                    }
                },
                _ => {},
            }
        },
        None => {},
    }
    proof {
        assert(path_views(out@) =~= base + name_entry(root@, p@, name@));
    }
}

/// Append what a raw selector produces for one entry.
fn raw_sel_exec(root: &JsonValue, sel: &RawSelector, p: &IdxPath, out: &mut Vec<IdxPath>)
    ensures
        path_views(final(out)@) == path_views(old(out)@) + raw_sel_entry(root@, *sel, p@),
{
    match sel {
        RawSelector::Wildcard(_) => wildcard_exec(root, p, out),
        RawSelector::Parent(_) => parent_exec(p, out),
        RawSelector::Name(name) => name_exec(root, p, &name.val, out),
    }
}

/// Append a node's pre-order subtree of paths: the node itself first, then
/// each child's subtree in order.
#[verifier::loop_isolation(false)]
fn descend_node(node: &JsonValue, p: &IdxPath, out: &mut Vec<IdxPath>)
    ensures
        path_views(final(out)@) == path_views(old(out)@) + descendant_paths(node@, p@),
    decreases node,
{
    let ghost base = path_views(old(out)@);
    out.push(p.clone());
    let ghost m = node@;
    match node {
        JsonValue::Array(v) => {
            let n = v.len();
            let mut i: usize = 0;
            proof {
                assert(path_views(out@) =~= base + seq![p@]);
            }
            while i < n
                invariant
                    i <= n,
                    n == v@.len(),
                    path_views(out@) + descendant_children(m, p@, i as int) =~= base + descendant_paths(m, p@),
                decreases n - i,
            {
                let cp = p.child(Idx::Array(i));
                proof {
                    assert(cp@ == p@.push(child_key_of(m, i as int)));
                    assert(v@[i as int]@ == child_val_of(m, i as int));
                }
                descend_node(&v[i], &cp, out);
                i += 1;
            }
            proof {
                assert(descendant_children(m, p@, n as int) =~= Seq::<Seq<IdxModel>>::empty());
                assert(path_views(out@) =~= base + descendant_paths(m, p@));
            }
        },
        JsonValue::Object(es) => {
            let n = es.len();
            let mut i: usize = 0;
            proof {
                assert(path_views(out@) =~= base + seq![p@]);
            }
            while i < n
                invariant
                    i <= n,
                    n == es@.len(),
                    path_views(out@) + descendant_children(m, p@, i as int) =~= base + descendant_paths(m, p@),
                decreases n - i,
            {
                let cp = p.child(Idx::Object(es[i].key.clone()));
                proof {
                    assert(cp@ == p@.push(child_key_of(m, i as int)));
                    assert(es@[i as int].value@ == child_val_of(m, i as int));
                }
                descend_node(&es[i].value, &cp, out);
                i += 1;
            }
            proof {
                assert(descendant_children(m, p@, n as int) =~= Seq::<Seq<IdxModel>>::empty());
                assert(path_views(out@) =~= base + descendant_paths(m, p@));
            }
        },
        _ => {
            proof {
                assert(child_count_of(m) == 0);
                assert(descendant_children(m, p@, 0) =~= Seq::<Seq<IdxModel>>::empty());
                assert(path_views(out@) =~= base + descendant_paths(m, p@));
            }
        },
    }
}

/// Append what a recursive-descent step produces for one entry.
fn descend_exec(root: &JsonValue, p: &IdxPath, out: &mut Vec<IdxPath>)
    ensures
        path_views(final(out)@) == path_views(old(out)@) + descend_entry(root@, p@),
{
    let ghost base = path_views(old(out)@);
    match resolve_node(root, p) {
        Some(node) => {
            descend_node(node, p, out);
        },
        None => {
            proof {
                assert(path_views(out@) =~= base + descend_entry(root@, p@));
            }
        },
    }
}

/// A slice endpoint resolved against an array length.
fn bound_exec(len: usize, x: i64) -> (r: usize)
    ensures
        r as int == bound_idx(len as int, x as int),
{
    if x < 0 {
        let mag = neg_magnitude(x);
        if mag > len as u64 {
            0
        } else {
            len - (mag as usize)
        }
    } else {
        if (x as u64) > (len as u64) {
            len
        } else {
            x as usize
        }
    }
}

/// Append the paths of a forward slice walked with a stride.
#[verifier::loop_isolation(false)]
fn fwd_walk(p: &IdxPath, s: usize, e: usize, stride: u64, out: &mut Vec<IdxPath>)
    requires
        stride > 0,
    ensures
        path_views(final(out)@) == path_views(old(out)@) + fwd_paths(p@, s as int, e as int, stride as int),
{
    let ghost base = path_views(old(out)@);
    let mut i: usize = s;
    let mut done: bool = i >= e;
    proof {
        if done {
            assert(fwd_paths(p@, i as int, e as int, stride as int) =~= Seq::<Seq<IdxModel>>::empty());
        }
        assert(path_views(out@) + fwd_paths(p@, i as int, e as int, stride as int) =~= base
            + fwd_paths(p@, s as int, e as int, stride as int));
    }
    while !done
        invariant
            done ==> fwd_paths(p@, i as int, e as int, stride as int) =~= Seq::<Seq<IdxModel>>::empty(),
            !done ==> i < e,
            e <= usize::MAX,
            path_views(out@) + fwd_paths(p@, i as int, e as int, stride as int) =~= base + fwd_paths(
                p@,
                s as int,
                e as int,
                stride as int,
            ),
        decreases e - i + (if done { 0int } else { 1int }),
    {
        out.push(p.child(Idx::Array(i)));
        let next: u128 = i as u128 + stride as u128;
        proof {
            let clamped = if (i as int) + (stride as int) > (e as int) {
                e as int
            } else {
                i as int + stride as int
            };
            assert(fwd_paths(p@, i as int, e as int, stride as int) == seq![p@.push(
                IdxModel::Arr(i as int),
            )] + fwd_paths(p@, clamped, e as int, stride as int));
        }
        if next >= e as u128 {
            proof {
                assert(fwd_paths(p@, e as int, e as int, stride as int) =~= Seq::<
                    Seq<IdxModel>,
                >::empty());
            }
            done = true;
            i = e;
        } else {
            i = next as usize;
        }
        proof {
            assert(path_views(out@) + fwd_paths(p@, i as int, e as int, stride as int) =~= base
                + fwd_paths(p@, s as int, e as int, stride as int));
        }
    }
    proof {
        assert(path_views(out@) =~= base + fwd_paths(p@, s as int, e as int, stride as int));
    }
}

/// Append the paths of a backward slice walked with a stride.
#[verifier::loop_isolation(false)]
fn rev_walk(p: &IdxPath, hi: usize, lo: usize, stride: u64, empty: bool, out: &mut Vec<IdxPath>)
    requires
        stride > 0,
        !empty ==> lo <= hi,
    ensures
        path_views(final(out)@) == path_views(old(out)@) + ({
            if empty {
                Seq::<Seq<IdxModel>>::empty()
            } else {
                rev_paths(p@, hi as int, lo as int, stride as int)
            }
        }),
{
    let ghost base = path_views(old(out)@);
    if empty {
        proof {
            assert(path_views(out@) =~= base);
        }
        return ;
    }
    let mut i: usize = hi;
    let ghost mut gi: int = hi as int;
    let mut done: bool = false;
    while !done
        invariant
            !done ==> lo <= i <= hi && gi == i as int,
            done ==> gi < lo as int,
            path_views(out@) + rev_paths(p@, gi, lo as int, stride as int) =~= base + rev_paths(
                p@,
                hi as int,
                lo as int,
                stride as int,
            ),
        decreases (if done { 0int } else { gi - (lo as int) + 1 }),
    {
        out.push(p.child(Idx::Array(i)));
        proof {
            let clamped = if (gi - stride as int) < (lo as int) - 1 {
                (lo as int) - 1
            } else {
                gi - stride as int
            };
            assert(rev_paths(p@, gi, lo as int, stride as int) == seq![p@.push(
                IdxModel::Arr(gi),
            )] + rev_paths(p@, clamped, lo as int, stride as int));
        }
        if (i as u128) < (lo as u128) + (stride as u128) {
            proof {
                gi = if (gi - stride as int) < (lo as int) - 1 {
                    (lo as int) - 1
                } else {
                    gi - stride as int
                };
                assert(gi < lo as int);
                assert(rev_paths(p@, gi, lo as int, stride as int) =~= Seq::<
                    Seq<IdxModel>,
                >::empty());
            }
            done = true;
        } else {
            let next: u128 = i as u128 - stride as u128;
            i = next as usize;
            proof {
                gi = i as int;
            }
        }
        proof {
            assert(path_views(out@) + rev_paths(p@, gi, lo as int, stride as int) =~= base
                + rev_paths(p@, hi as int, lo as int, stride as int));
        }
    }
    proof {
        assert(rev_paths(p@, gi, lo as int, stride as int) =~= Seq::<Seq<IdxModel>>::empty());
        assert(path_views(out@) =~= base + rev_paths(p@, hi as int, lo as int, stride as int));
    }
}

/// Append what an integer bracket literal produces for one entry.
fn int_lit_exec(root: &JsonValue, i: i64, p: &IdxPath, out: &mut Vec<IdxPath>)
    ensures
        path_views(final(out)@) == path_views(old(out)@) + int_lit_entry(root@, p@, i),
{
    let ghost base = path_views(old(out)@);
    match resolve_node(root, p) {
        Some(node) => {
            match node {
                JsonValue::Array(v) => {
                    if i < 0 {
                        let mag = neg_magnitude(i);
                        if mag <= v.len() as u64 {
                            out.push(p.child(Idx::Array(v.len() - mag as usize)));
                        }
                    } else {
                        if (i as u64) < (v.len() as u64) {
                            out.push(p.child(Idx::Array(i as usize)));
                        }
                    }
                },
                _ => {},
            }
        },
        None => {},
    }
    proof {
        assert(path_views(out@) =~= base + int_lit_entry(root@, p@, i));
    }
}

/// Append what a string bracket literal produces for one entry.
fn str_lit_exec(root: &JsonValue, k: &String, p: &IdxPath, out: &mut Vec<IdxPath>)
    ensures
        path_views(final(out)@) == path_views(old(out)@) + str_lit_entry(root@, p@, k@),
{
    let ghost base = path_views(old(out)@);
    match resolve_node(root, p) {
        Some(node) => {
            match node {
                JsonValue::Object(m) => {
                    match key_position(m, k) {
                        Some(_) => {
                            out.push(p.child(Idx::Object(k.clone())));
                        },
                        None => {},
                    }
                },
                _ => {},
            }
        },
        None => {},
    }
    proof {
        assert(path_views(out@) =~= base + str_lit_entry(root@, p@, k@));
    }
}

/// Append what a bracket literal produces for one entry.
fn lit_exec(root: &JsonValue, lit: &BracketLit, p: &IdxPath, out: &mut Vec<IdxPath>)
    ensures
        path_views(final(out)@) == path_views(old(out)@) + lit_entry(root@, p@, *lit),
{
    match lit {
        BracketLit::Int(i) => int_lit_exec(root, i.val, p, out),
        BracketLit::String(sl) => match sl {
            StringLit::Single(sv) => str_lit_exec(root, &sv.content.val, p, out),
            StringLit::Double(dv) => str_lit_exec(root, &dv.content.val, p, out),
        },
    }
}

/// Append what a plain range produces for one entry.
fn range_exec(
    root: &JsonValue,
    start: Option<i64>,
    end: Option<i64>,
    p: &IdxPath,
    out: &mut Vec<IdxPath>,
)
    ensures
        path_views(final(out)@) == path_views(old(out)@) + range_entry(root@, p@, start, end),
{
    let ghost base = path_views(old(out)@);
    match resolve_node(root, p) {
        Some(node) => {
            match node {
                JsonValue::Array(v) => {
                    let sb = bound_exec(v.len(), match start {
                        Some(x) => x,
                        None => 0,
                    });
                    let eb = bound_exec(v.len(), match end {
                        Some(x) => x,
                        None => i64::MAX,
                    });
                    fwd_walk(p, sb, eb, 1, out);
                },
                _ => {},
            }
        },
        None => {},
    }
    proof {
        assert(path_views(out@) =~= base + range_entry(root@, p@, start, end));
    }
}

/// Append what a stepped range produces for one entry.
fn step_range_exec(
    root: &JsonValue,
    start: Option<i64>,
    end: Option<i64>,
    step: i64,
    p: &IdxPath,
    out: &mut Vec<IdxPath>,
)
    ensures
        path_views(final(out)@) == path_views(old(out)@) + step_range_entry(
            root@,
            p@,
            start,
            end,
            step,
        ),
{
    let ghost base = path_views(old(out)@);
    if step == 0 {
        proof {
            assert(path_views(out@) =~= base + step_range_entry(root@, p@, start, end, step));
        }
        return ;
    }
    match resolve_node(root, p) {
        Some(node) => {
            match node {
                JsonValue::Array(v) => {
                    let sb = bound_exec(v.len(), match start {
                        Some(x) => x,
                        None => 0,
                    });
                    let eb = bound_exec(v.len(), match end {
                        Some(x) => x,
                        None => i64::MAX,
                    });
                    if step < 0 {
                        let stride = neg_magnitude(step);
                        if eb == 0 {
                            proof {
                                assert(rev_paths(p@, eb as int - 1, sb as int, stride as int)
                                    =~= Seq::<Seq<IdxModel>>::empty());
                            }
                            rev_walk(p, 0, sb, stride, true, out);
                        } else if eb - 1 < sb {
                            proof {
                                assert(rev_paths(p@, eb as int - 1, sb as int, stride as int)
                                    =~= Seq::<Seq<IdxModel>>::empty());
                            }
                            rev_walk(p, eb - 1, sb, stride, true, out);
                        } else {
                            rev_walk(p, eb - 1, sb, stride, false, out);
                        }
                    } else {
                        fwd_walk(p, sb, eb, step as u64, out);
                    }
                },
                _ => {},
            }
        },
        None => {},
    }
    proof {
        assert(path_views(out@) =~= base + step_range_entry(root@, p@, start, end, step));
    }
}

/// The value of a unary operator applied to an operand value.
fn apply_unary(op: &UnOp, v: JsonValue) -> (r: Result<JsonValue, EvalErr>)
    ensures
        match r {
            Ok(rv) => spec_unary_value(*op, v@) == Ok::<JsonModel, EvalErrModel>(rv@),
            Err(er) => spec_unary_value(*op, v@) == Err::<JsonModel, EvalErrModel>(er@),
        },
{
    let vt = v.ty();
    match op {
        UnOp::Neg(_) => match v {
            JsonValue::Int(n) => {
                if n == i64::MIN {
                    Ok(JsonValue::Int(i64::MIN))
                } else {
                    Ok(JsonValue::Int(-n))
                }
            },
            _ => Err(EvalErr::MismatchedTypes { expected: Type::Number, found: vt }),
        },
        UnOp::Not(_) => match v {
            JsonValue::Bool(b) => Ok(JsonValue::Bool(!b)),
            _ => Err(EvalErr::MismatchedTypes { expected: Type::Bool, found: vt }),
        },
    }
}

/// The value of a binary operator applied to its operands' values.
fn apply_binary(op: &BinOp, l: JsonValue, r: JsonValue) -> (res: Result<JsonValue, EvalErr>)
    ensures
        match res {
            Ok(rv) => spec_eval_binary(*op, l@, r@) == Ok::<JsonModel, EvalErrModel>(rv@),
            Err(er) => spec_eval_binary(*op, l@, r@) == Err::<JsonModel, EvalErrModel>(er@),
        },
{
    let lt = l.ty();
    let rt = r.ty();
    match op {
        BinOp::And(_) => match (l, r) {
            (JsonValue::Bool(a), JsonValue::Bool(b)) => Ok(JsonValue::Bool(a && b)),
            (JsonValue::Bool(_), _) => Err(
                EvalErr::MismatchedTypes { expected: Type::Bool, found: rt },
            ),
            _ => Err(EvalErr::MismatchedTypes { expected: Type::Bool, found: lt }),
        },
        BinOp::Or(_) => match (l, r) {
            (JsonValue::Bool(a), JsonValue::Bool(b)) => Ok(JsonValue::Bool(a || b)),
            (JsonValue::Bool(_), _) => Err(
                EvalErr::MismatchedTypes { expected: Type::Bool, found: rt },
            ),
            _ => Err(EvalErr::MismatchedTypes { expected: Type::Bool, found: lt }),
        },
        BinOp::Eq(_) => Ok(JsonValue::Bool(l.deep_eq(&r))),
        BinOp::Le(_) => match (l, r) {
            (JsonValue::Int(a), JsonValue::Int(b)) => Ok(JsonValue::Bool(a <= b)),
            (JsonValue::Int(_), _) => Err(
                EvalErr::MismatchedTypes { expected: Type::Float, found: rt },
            ),
            _ => Err(EvalErr::MismatchedTypes { expected: Type::Float, found: lt }),
        },
        BinOp::Lt(_) => match (l, r) {
            (JsonValue::Int(a), JsonValue::Int(b)) => Ok(JsonValue::Bool(a < b)),
            (JsonValue::Int(_), _) => Err(
                EvalErr::MismatchedTypes { expected: Type::Float, found: rt },
            ),
            _ => Err(EvalErr::MismatchedTypes { expected: Type::Float, found: lt }),
        },
        BinOp::Gt(_) => match (l, r) {
            (JsonValue::Int(a), JsonValue::Int(b)) => Ok(JsonValue::Bool(a > b)),
            (JsonValue::Int(_), _) => Err(
                EvalErr::MismatchedTypes { expected: Type::Float, found: rt },
            ),
            _ => Err(EvalErr::MismatchedTypes { expected: Type::Float, found: lt }),
        },
        BinOp::Ge(_) => match (l, r) {
            (JsonValue::Int(a), JsonValue::Int(b)) => Ok(JsonValue::Bool(a >= b)),
            (JsonValue::Int(_), _) => Err(
                EvalErr::MismatchedTypes { expected: Type::Float, found: rt },
            ),
            _ => Err(EvalErr::MismatchedTypes { expected: Type::Float, found: lt }),
        },
        BinOp::Add(_) => match (l, r) {
            (JsonValue::Int(a), JsonValue::Int(b)) => Ok(JsonValue::Int(a.wrapping_add(b))),
            (JsonValue::Str(a), JsonValue::Str(b)) => Ok(JsonValue::Str(a.concat(b.as_str()))),
            (la, ra) => {
                if la.ty() == ra.ty() {
                    Err(
                        EvalErr::Unsupported(
                            String::from_str("Adding non-numeric or non-string types"),
                        ),
                    )
                } else {
                    Err(
                        EvalErr::Unsupported(String::from_str("Adding two values of different type")),
                    )
                }
            },
        },
        BinOp::Sub(_) => match (l, r) {
            (JsonValue::Int(a), JsonValue::Int(b)) => Ok(JsonValue::Int(a.wrapping_sub(b))),
            (JsonValue::Int(_), _) => Err(
                EvalErr::MismatchedTypes { expected: Type::Float, found: rt },
            ),
            _ => Err(EvalErr::MismatchedTypes { expected: Type::Float, found: lt }),
        },
        BinOp::Mul(_) => match (l, r) {
            (JsonValue::Int(a), JsonValue::Int(b)) => Ok(JsonValue::Int(a.wrapping_mul(b))),
            (JsonValue::Int(_), _) => Err(
                EvalErr::MismatchedTypes { expected: Type::Float, found: rt },
            ),
            _ => Err(EvalErr::MismatchedTypes { expected: Type::Float, found: lt }),
        },
        BinOp::Div(_) => match (l, r) {
            (JsonValue::Int(a), JsonValue::Int(b)) => {
                if b == 0 {
                    Err(EvalErr::Unsupported(String::from_str("Division by zero")))
                } else {
                    match a.checked_div(b) {
                        Some(q) => Ok(JsonValue::Int(q)),
                        None => Ok(JsonValue::Int(i64::MIN)),
                    }
                }
            },
            (JsonValue::Int(_), _) => Err(
                EvalErr::MismatchedTypes { expected: Type::Float, found: rt },
            ),
            _ => Err(EvalErr::MismatchedTypes { expected: Type::Float, found: lt }),
        },
        BinOp::Rem(_) => match (l, r) {
            (JsonValue::Int(a), JsonValue::Int(b)) => {
                if b == 0 {
                    Err(EvalErr::Unsupported(String::from_str("Remainder by zero")))
                } else {
                    match a.checked_rem(b) {
                        Some(q) => Ok(JsonValue::Int(q)),
                        None => Ok(JsonValue::Int(0)),
                    }
                }
            },
            (JsonValue::Int(_), _) => Err(
                EvalErr::MismatchedTypes { expected: Type::Int, found: rt },
            ),
            _ => Err(EvalErr::MismatchedTypes { expected: Type::Int, found: lt }),
        },
    }
}

/// The value a filter expression evaluates to with `@` bound to the node at
/// `cur`, or the first failure.
#[verifier::loop_isolation(false)]
fn eval_expr_exec(root: &JsonValue, cur: &IdxPath, e: &FilterExpr) -> (r: Result<
    JsonValue,
    EvalErr,
>)
    ensures
        match r {
            Ok(v) => spec_eval_expr(root@, cur@, *e) == Ok::<JsonModel, EvalErrModel>(v@),
            Err(er) => spec_eval_expr(root@, cur@, *e) == Err::<JsonModel, EvalErrModel>(er@),
        },
    decreases *e, 0int,
{
    match e {
        FilterExpr::Unary(op, inner) => {
            let res = match eval_expr_exec(root, cur, inner) {
                Ok(v) => apply_unary(op, v),
                Err(er) => Err(er),
            };
            proof {
                assert(spec_eval_expr(root@, cur@, *e) == spec_eval_unary(root@, cur@, *op, **inner));
                assert(spec_eval_unary(root@, cur@, *op, **inner) == (match spec_eval_expr(
                    root@,
                    cur@,
                    **inner,
                ) {
                    Err(err) => Err::<JsonModel, EvalErrModel>(err),
                    Ok(v) => spec_unary_value(*op, v),
                }));
                match &res {
                    Ok(v) => {
                        assert(spec_eval_expr(root@, cur@, *e) == Ok::<JsonModel, EvalErrModel>(v@));
                    },
                    Err(er) => {
                        assert(spec_eval_expr(root@, cur@, *e) == Err::<JsonModel, EvalErrModel>(
                            er@,
                        ));
                    },
                }
            }
            res
        },
        FilterExpr::Binary(lhs, op, rhs) => {
            let lres = eval_expr_exec(root, cur, lhs);
            let rres = eval_expr_exec(root, cur, rhs);
            let res = match (lres, rres) {
                (Ok(lv), Ok(rv)) => apply_binary(op, lv, rv),
                (Err(e1), _) => Err(e1),
                (_, Err(e2)) => Err(e2),
            };
            proof {
                match &res {
                    Ok(v) => {
                        assert(spec_eval_expr(root@, cur@, *e) == Ok::<JsonModel, EvalErrModel>(v@));
                    },
                    Err(er) => {
                        assert(spec_eval_expr(root@, cur@, *e) == Err::<JsonModel, EvalErrModel>(
                            er@,
                        ));
                    },
                }
            }
            res
        },
        FilterExpr::Path(sp) => eval_expr_path_exec(root, cur, sp),
        FilterExpr::Lit(lit) => Ok(
            match lit {
                ExprLit::Int(i) => JsonValue::Int(i.val),
                ExprLit::String(sl) => match sl {
                    StringLit::Single(sv) => JsonValue::Str(sv.content.val.clone()),
                    StringLit::Double(dv) => JsonValue::Str(dv.content.val.clone()),
                },
                ExprLit::Bool(b) => JsonValue::Bool(b.val),
                ExprLit::Null(_) => JsonValue::Null,
            },
        ),
        FilterExpr::Parens(_, inner) => eval_expr_exec(root, cur, inner),
    }
}

/// The value of a sub-path reference in a filter expression.
#[verifier::loop_isolation(false)]
fn eval_expr_path_exec(root: &JsonValue, cur: &IdxPath, sp: &SubPath) -> (r: Result<
    JsonValue,
    EvalErr,
>)
    ensures
        match r {
            Ok(v) => spec_eval_expr_path(root@, cur@, *sp) == Ok::<JsonModel, EvalErrModel>(v@),
            Err(er) => spec_eval_expr_path(root@, cur@, *sp) == Err::<JsonModel, EvalErrModel>(er@),
        },
    decreases *sp, 1int,
{
    let base: IdxPath = match &sp.kind {
        PathKind::Root(_) => IdxPath::new(Vec::new()),
        PathKind::Relative(_) => cur.clone(),
    };
    proof {
        match sp.kind {
            PathKind::Root(_) => {
                assert(base@ =~= Seq::<IdxModel>::empty());
            },
            PathKind::Relative(_) => {},
        }
    }
    let mut start: Vec<IdxPath> = Vec::new();
    start.push(base);
    proof {
        assert(path_views(start@) =~= seq![
            match sp.kind {
                PathKind::Root(_) => Seq::<IdxModel>::empty(),
                PathKind::Relative(_) => cur@,
            },
        ]);
    }
    let results = eval_segments_exec(root, sp.segments.as_slice(), start);
    if results.len() == 0 {
        Err(EvalErr::MatchedNone)
    } else if results.len() > 1 {
        Err(EvalErr::MatchedMany)
    } else {
        let q = &results[0];
        if sp.is_id() {
            match q.last() {
                Some(idx) => {
                    match idx {
                        Idx::Array(i) => {
                            if (*i as u64) <= 9223372036854775807u64 {
                                Ok(JsonValue::Int(*i as i64))
                            } else {
                                Err(EvalErr::BadIdx)
                            }
                        },
                        Idx::Object(k) => Ok(JsonValue::Str(k.clone())),
                    }
                },
                None => Err(EvalErr::BadIdx),
            }
        } else {
            match resolve_node(root, q) {
                Some(v) => Ok(v.clone()),
                None => Err(EvalErr::BadIdx),
            }
        }
    }
}

/// Append the children of the entry's node on which the filter predicate
/// holds.
#[verifier::loop_isolation(false)]
fn filter_entry_exec(root: &JsonValue, e: &FilterExpr, p: &IdxPath, out: &mut Vec<IdxPath>)
    ensures
        path_views(final(out)@) == path_views(old(out)@) + filter_entry(root@, p@, *e),
    decreases *e, 6int,
{
    let ghost base = path_views(old(out)@);
    match resolve_node(root, p) {
        Some(node) => {
            let ghost m = node@;
            let n = node.child_count();
            let mut k: usize = 0;
            while k < n
                invariant
                    k <= n,
                    n as int == child_count_of(m),
                    path_views(out@) + filter_children(root@, p@, m, *e, k as int) =~= base
                        + filter_children(root@, p@, m, *e, 0),
                decreases n - k,
            {
                let cp = p.child(node.child_idx(k));
                let res = eval_expr_exec(root, &cp, e);
                let keep = match &res {
                    Ok(JsonValue::Bool(true)) => true,
                    _ => false,
                };
                if keep {
                    out.push(cp);
                }
                k += 1;
            }
            proof {
                assert(filter_children(root@, p@, m, *e, n as int) =~= Seq::<Seq<IdxModel>>::empty());
                assert(path_views(out@) =~= base + filter_entry(root@, p@, *e));
            }
        },
        None => {
            proof {
                assert(path_views(out@) =~= base + filter_entry(root@, p@, *e));
            }
        },
    }
}

/// Append the contribution of a bracket sub-path for one entry: the
/// sub-path must resolve to exactly one node, which is used as a dynamic
/// index into the entry's node; zero or several matches contribute
/// nothing.
#[verifier::loop_isolation(false)]
fn match_entry_exec(root: &JsonValue, sp: &SubPath, p: &IdxPath, out: &mut Vec<IdxPath>)
    ensures
        path_views(final(out)@) == path_views(old(out)@) + match_entry(root@, p@, *sp),
    decreases *sp, 6int,
{
    let ghost base = path_views(old(out)@);
    let bp: IdxPath = match &sp.kind {
        PathKind::Root(_) => IdxPath::new(Vec::new()),
        PathKind::Relative(_) => p.clone(),
    };
    proof {
        match sp.kind {
            PathKind::Root(_) => {
                assert(bp@ =~= Seq::<IdxModel>::empty());
            },
            PathKind::Relative(_) => {},
        }
    }
    let mut start: Vec<IdxPath> = Vec::new();
    start.push(bp);
    proof {
        assert(path_views(start@) =~= seq![
            match sp.kind {
                PathKind::Root(_) => Seq::<IdxModel>::empty(),
                PathKind::Relative(_) => p@,
            },
        ]);
    }
    let results = eval_segments_exec(root, sp.segments.as_slice(), start);
    let ghost rv = path_views(results@);
    let tilde = sp.is_id();
    if results.len() == 1 {
        proof {
            assert(rv[0] == results@[0]@);
        }
        let q = &results[0];
        let keyval: Option<JsonValue> = if tilde {
            match q.last() {
                Some(idx) => {
                    match idx {
                        Idx::Array(i) => {
                            if (*i as u64) <= 9223372036854775807u64 {
                                Some(JsonValue::Int(*i as i64))
                            } else {
                                None
                            }
                        },
                        Idx::Object(k) => Some(JsonValue::Str(k.clone())),
                    }
                },
                None => None,
            }
        } else {
            match resolve_node(root, q) {
                Some(v) => Some(v.clone()),
                None => None,
            }
        };
        match (resolve_node(root, p), keyval) {
            (Some(node), Some(kv)) => {
                match (node, kv) {
                    (JsonValue::Array(v), JsonValue::Int(nn)) => {
                        if nn < 0 {
                            let mag = neg_magnitude(nn);
                            if mag <= v.len() as u64 {
                                out.push(p.child(Idx::Array(v.len() - mag as usize)));
                            }
                        } else {
                            if (nn as u64) < (v.len() as u64) {
                                out.push(p.child(Idx::Array(nn as usize)));
                            }
                        }
                    },
                    (JsonValue::Object(m), kv2) => {
                        let key: Option<String> = match kv2 {
                            JsonValue::Str(sv) => Some(sv),
                            JsonValue::Int(nn) => Some(i64_to_string(nn)),
                            _ => None,
                        };
                        match key {
                            Some(kk) => {
                                match key_position(m, &kk) {
                                    Some(_) => {
                                        out.push(p.child(Idx::Object(kk)));
                                    },
                                    None => {},
                                }
                            },
                            None => {},
                        }
                    },
                    _ => {},
                }
            },
            _ => {},
        }
        proof {
            assert(path_views(out@) =~= base + match_convert(root@, p@, rv[0], sp.tilde is Some));
        }
    }
    proof {
        assert(path_views(out@) =~= base + match_entry(root@, p@, *sp));
    }
}

/// Append the wildcard results of the whole working set.
#[verifier::loop_isolation(false)]
fn all_wildcard_exec(root: &JsonValue, set: &Vec<IdxPath>, out: &mut Vec<IdxPath>)
    ensures
        path_views(final(out)@) == path_views(old(out)@) + all_wildcard(root@, path_views(set@), 0),
{
    let ghost base = path_views(old(out)@);
    let ghost sv = path_views(set@);
    let n = set.len();
    let mut i: usize = 0;
    while i < n
        invariant
            i <= n,
            n == set@.len(),
            sv == path_views(set@),
            path_views(out@) + all_wildcard(root@, sv, i as int) =~= base + all_wildcard(
                root@,
                sv,
                0,
            ),
        decreases n - i,
    {
        wildcard_exec(root, &set[i], out);
        i += 1;
    }
    proof {
        assert(all_wildcard(root@, sv, n as int) =~= Seq::<Seq<IdxModel>>::empty());
        assert(path_views(out@) =~= base + all_wildcard(root@, sv, 0));
    }
}

/// Append the parent results of the whole working set.
#[verifier::loop_isolation(false)]
fn all_parent_exec(set: &Vec<IdxPath>, out: &mut Vec<IdxPath>)
    ensures
        path_views(final(out)@) == path_views(old(out)@) + all_parent(path_views(set@), 0),
{
    let ghost base = path_views(old(out)@);
    let ghost sv = path_views(set@);
    let n = set.len();
    let mut i: usize = 0;
    while i < n
        invariant
            i <= n,
            n == set@.len(),
            sv == path_views(set@),
            path_views(out@) + all_parent(sv, i as int) =~= base + all_parent(sv, 0),
        decreases n - i,
    {
        parent_exec(&set[i], out);
        i += 1;
    }
    proof {
        assert(all_parent(sv, n as int) =~= Seq::<Seq<IdxModel>>::empty());
        assert(path_views(out@) =~= base + all_parent(sv, 0));
    }
}

/// Append the plain-range results of the whole working set.
#[verifier::loop_isolation(false)]
fn all_range_exec(
    root: &JsonValue,
    start: Option<i64>,
    end: Option<i64>,
    set: &Vec<IdxPath>,
    out: &mut Vec<IdxPath>,
)
    ensures
        path_views(final(out)@) == path_views(old(out)@) + all_range(
            root@,
            start,
            end,
            path_views(set@),
            0,
        ),
{
    let ghost base = path_views(old(out)@);
    let ghost sv = path_views(set@);
    let n = set.len();
    let mut i: usize = 0;
    while i < n
        invariant
            i <= n,
            n == set@.len(),
            sv == path_views(set@),
            path_views(out@) + all_range(root@, start, end, sv, i as int) =~= base + all_range(
                root@,
                start,
                end,
                sv,
                0,
            ),
        decreases n - i,
    {
        range_exec(root, start, end, &set[i], out);
        i += 1;
    }
    proof {
        assert(all_range(root@, start, end, sv, n as int) =~= Seq::<Seq<IdxModel>>::empty());
        assert(path_views(out@) =~= base + all_range(root@, start, end, sv, 0));
    }
}

/// Append the stepped-range results of the whole working set.
#[verifier::loop_isolation(false)]
fn all_step_exec(
    root: &JsonValue,
    start: Option<i64>,
    end: Option<i64>,
    step: i64,
    set: &Vec<IdxPath>,
    out: &mut Vec<IdxPath>,
)
    ensures
        path_views(final(out)@) == path_views(old(out)@) + all_step_range(
            root@,
            start,
            end,
            step,
            path_views(set@),
            0,
        ),
{
    let ghost base = path_views(old(out)@);
    let ghost sv = path_views(set@);
    let n = set.len();
    let mut i: usize = 0;
    while i < n
        invariant
            i <= n,
            n == set@.len(),
            sv == path_views(set@),
            path_views(out@) + all_step_range(root@, start, end, step, sv, i as int) =~= base
                + all_step_range(root@, start, end, step, sv, 0),
        decreases n - i,
    {
        step_range_exec(root, start, end, step, &set[i], out);
        i += 1;
    }
    proof {
        assert(all_step_range(root@, start, end, step, sv, n as int) =~= Seq::<
            Seq<IdxModel>,
        >::empty());
        assert(path_views(out@) =~= base + all_step_range(root@, start, end, step, sv, 0));
    }
}

/// Append the bracket-literal results of the whole working set.
#[verifier::loop_isolation(false)]
fn all_lit_exec(root: &JsonValue, lit: &BracketLit, set: &Vec<IdxPath>, out: &mut Vec<IdxPath>)
    ensures
        path_views(final(out)@) == path_views(old(out)@) + all_lit(
            root@,
            *lit,
            path_views(set@),
            0,
        ),
{
    let ghost base = path_views(old(out)@);
    let ghost sv = path_views(set@);
    let n = set.len();
    let mut i: usize = 0;
    while i < n
        invariant
            i <= n,
            n == set@.len(),
            sv == path_views(set@),
            path_views(out@) + all_lit(root@, *lit, sv, i as int) =~= base + all_lit(
                root@,
                *lit,
                sv,
                0,
            ),
        decreases n - i,
    {
        lit_exec(root, lit, &set[i], out);
        i += 1;
    }
    proof {
        assert(all_lit(root@, *lit, sv, n as int) =~= Seq::<Seq<IdxModel>>::empty());
        assert(path_views(out@) =~= base + all_lit(root@, *lit, sv, 0));
    }
}

/// Append the bracket sub-path results of the whole working set.
#[verifier::loop_isolation(false)]
fn all_match_exec(root: &JsonValue, sp: &SubPath, set: &Vec<IdxPath>, out: &mut Vec<IdxPath>)
    ensures
        path_views(final(out)@) == path_views(old(out)@) + all_match(
            root@,
            *sp,
            path_views(set@),
            0,
        ),
    decreases *sp, 7int,
{
    let ghost base = path_views(old(out)@);
    let ghost sv = path_views(set@);
    let n = set.len();
    let mut i: usize = 0;
    while i < n
        invariant
            i <= n,
            n == set@.len(),
            sv == path_views(set@),
            path_views(out@) + all_match(root@, *sp, sv, i as int) =~= base + all_match(
                root@,
                *sp,
                sv,
                0,
            ),
        decreases n - i,
    {
        match_entry_exec(root, sp, &set[i], out);
        i += 1;
    }
    proof {
        assert(all_match(root@, *sp, sv, n as int) =~= Seq::<Seq<IdxModel>>::empty());
        assert(path_views(out@) =~= base + all_match(root@, *sp, sv, 0));
    }
}

/// Append the filter results of the whole working set.
#[verifier::loop_isolation(false)]
fn all_filter_exec(root: &JsonValue, e: &FilterExpr, set: &Vec<IdxPath>, out: &mut Vec<IdxPath>)
    ensures
        path_views(final(out)@) == path_views(old(out)@) + all_filter(
            root@,
            *e,
            path_views(set@),
            0,
        ),
    decreases *e, 7int,
{
    let ghost base = path_views(old(out)@);
    let ghost sv = path_views(set@);
    let n = set.len();
    let mut i: usize = 0;
    while i < n
        invariant
            i <= n,
            n == set@.len(),
            sv == path_views(set@),
            path_views(out@) + all_filter(root@, *e, sv, i as int) =~= base + all_filter(
                root@,
                *e,
                sv,
                0,
            ),
        decreases n - i,
    {
        filter_entry_exec(root, e, &set[i], out);
        i += 1;
    }
    proof {
        assert(all_filter(root@, *e, sv, n as int) =~= Seq::<Seq<IdxModel>>::empty());
        assert(path_views(out@) =~= base + all_filter(root@, *e, sv, 0));
    }
}

/// Append what one union component produces on the working set.
#[verifier::loop_isolation(false)]
fn eval_component_exec(root: &JsonValue, u: &UnionComponent, set: &Vec<IdxPath>, out: &mut Vec<
    IdxPath,
>)
    ensures
        path_views(final(out)@) == path_views(old(out)@) + spec_eval_component(
            root@,
            *u,
            path_views(set@),
        ),
    decreases *u, 8int,
{
    let ghost base = path_views(old(out)@);
    let ghost sv = path_views(set@);
    match u {
        UnionComponent::StepRange(sr) => {
            let start = match &sr.start {
                Some(l) => Some(l.val),
                None => None,
            };
            let end = match &sr.end {
                Some(l) => Some(l.val),
                None => None,
            };
            let step = match &sr.step {
                Some(l) => l.as_int(),
                None => 1,
            };
            all_step_exec(root, start, end, step, set, out);
        },
        UnionComponent::Range(r) => {
            let start = match &r.start {
                Some(l) => Some(l.val),
                None => None,
            };
            let end = match &r.end {
                Some(l) => Some(l.val),
                None => None,
            };
            all_range_exec(root, start, end, set, out);
        },
        UnionComponent::Parent(_) => {
            all_parent_exec(set, out);
        },
        UnionComponent::Path(sp) => {
            all_match_exec(root, sp, set, out);
        },
        UnionComponent::Filter(f) => {
            all_filter_exec(root, &f.inner, set, out);
        },
        UnionComponent::Literal(lit) => {
            all_lit_exec(root, lit, set, out);
        },
    }
    proof {
        assert(path_views(out@) =~= base + spec_eval_component(root@, *u, sv));
    }
}

/// What a bracket selector produces on the working set.
#[verifier::loop_isolation(false)]
fn eval_bracket_exec(root: &JsonValue, b: &BracketSelector, set: Vec<IdxPath>) -> (r: Vec<IdxPath>)
    ensures
        path_views(r@) == spec_eval_bracket(root@, *b, path_views(set@)),
    decreases *b, 9int,
{
    let ghost sv = path_views(set@);
    let mut out: Vec<IdxPath> = Vec::new();
    proof {
        assert(path_views(out@) =~= Seq::<Seq<IdxModel>>::empty());
    }
    match b {
        BracketSelector::Union(comps) => {
            let cn = comps.len();
            let mut j: usize = 0;
            while j < cn
                invariant
                    j <= cn,
                    cn == comps@.len(),
                    sv == path_views(set@),
                    path_views(out@) + spec_eval_union(root@, comps@, j as int, sv) =~= spec_eval_union(
                        root@,
                        comps@,
                        0,
                        sv,
                    ),
                decreases cn - j,
            {
                eval_component_exec(root, &comps[j], &set, &mut out);
                j += 1;
            }
            proof {
                assert(spec_eval_union(root@, comps@, cn as int, sv) =~= Seq::<
                    Seq<IdxModel>,
                >::empty());
            }
        },
        BracketSelector::StepRange(sr) => {
            let start = match &sr.start {
                Some(l) => Some(l.val),
                None => None,
            };
            let end = match &sr.end {
                Some(l) => Some(l.val),
                None => None,
            };
            let step = match &sr.step {
                Some(l) => l.as_int(),
                None => 1,
            };
            all_step_exec(root, start, end, step, &set, &mut out);
        },
        BracketSelector::Range(rg) => {
            let start = match &rg.start {
                Some(l) => Some(l.val),
                None => None,
            };
            let end = match &rg.end {
                Some(l) => Some(l.val),
                None => None,
            };
            all_range_exec(root, start, end, &set, &mut out);
        },
        BracketSelector::Wildcard(_) => {
            all_wildcard_exec(root, &set, &mut out);
        },
        BracketSelector::Parent(_) => {
            all_parent_exec(&set, &mut out);
        },
        BracketSelector::Path(sp) => {
            all_match_exec(root, sp, &set, &mut out);
        },
        BracketSelector::Filter(f) => {
            all_filter_exec(root, &f.inner, &set, &mut out);
        },
        BracketSelector::Literal(lit) => {
            all_lit_exec(root, lit, &set, &mut out);
        },
    }
    proof {
        assert(path_views(out@) =~= spec_eval_bracket(root@, *b, sv));
    }
    out
}

/// What one path segment produces on the working set.
#[verifier::loop_isolation(false)]
fn eval_segment_exec(root: &JsonValue, s: &Segment, set: Vec<IdxPath>) -> (r: Vec<IdxPath>)
    ensures
        path_views(r@) == spec_eval_segment(root@, *s, path_views(set@)),
    decreases *s, 9int,
{
    let ghost sv = path_views(set@);
    match s {
        Segment::Dot(_, sel) => {
            let mut out: Vec<IdxPath> = Vec::new();
            proof {
                assert(path_views(out@) =~= Seq::<Seq<IdxModel>>::empty());
            }
            let n = set.len();
            let mut i: usize = 0;
            while i < n
                invariant
                    i <= n,
                    n == set@.len(),
                    sv == path_views(set@),
                    path_views(out@) + all_raw(root@, *sel, sv, i as int) =~= all_raw(
                        root@,
                        *sel,
                        sv,
                        0,
                    ),
                decreases n - i,
            {
                raw_sel_exec(root, sel, &set[i], &mut out);
                i += 1;
            }
            proof {
                assert(all_raw(root@, *sel, sv, n as int) =~= Seq::<Seq<IdxModel>>::empty());
                assert(path_views(out@) =~= spec_eval_segment(root@, *s, sv));
            }
            out
        },
        Segment::Bracket(_, b) => {
            let out = eval_bracket_exec(root, b, set);
            out
        },
        Segment::Recursive(_, opt) => {
            let mut flat: Vec<IdxPath> = Vec::new();
            proof {
                assert(path_views(flat@) =~= Seq::<Seq<IdxModel>>::empty());
            }
            let n = set.len();
            let mut i: usize = 0;
            while i < n
                invariant
                    i <= n,
                    n == set@.len(),
                    sv == path_views(set@),
                    path_views(flat@) + all_descend(root@, sv, i as int) =~= all_descend(
                        root@,
                        sv,
                        0,
                    ),
                decreases n - i,
            {
                descend_exec(root, &set[i], &mut flat);
                i += 1;
            }
            proof {
                assert(all_descend(root@, sv, n as int) =~= Seq::<Seq<IdxModel>>::empty());
                assert(path_views(flat@) =~= all_descend(root@, sv, 0));
            }
            match opt {
                Some(sel) => {
                    let ghost fv = path_views(flat@);
                    let mut out: Vec<IdxPath> = Vec::new();
                    proof {
                        assert(path_views(out@) =~= Seq::<Seq<IdxModel>>::empty());
                    }
                    let fl = flat.len();
                    let mut j: usize = 0;
                    while j < fl
                        invariant
                            j <= fl,
                            fl == flat@.len(),
                            fv == path_views(flat@),
                            path_views(out@) + all_raw(root@, *sel, fv, j as int) =~= all_raw(
                                root@,
                                *sel,
                                fv,
                                0,
                            ),
                        decreases fl - j,
                    {
                        raw_sel_exec(root, sel, &flat[j], &mut out);
                        j += 1;
                    }
                    proof {
                        assert(all_raw(root@, *sel, fv, fl as int) =~= Seq::<Seq<IdxModel>>::empty());
                        assert(path_views(out@) =~= spec_eval_segment(root@, *s, sv));
                    }
                    out
                },
                None => {
                    proof {
                        assert(path_views(flat@) =~= spec_eval_segment(root@, *s, sv));
                    }
                    flat
                },
            }
        },
    }
}

/// The segments of the slice applied in order to the working set.
#[verifier::loop_isolation(false)]
fn eval_segments_exec(root: &JsonValue, ss: &[Segment], set: Vec<IdxPath>) -> (r: Vec<IdxPath>)
    ensures
        path_views(r@) == spec_eval_segments(root@, ss@, 0, path_views(set@)),
    decreases ss@, 10int,
{
    let ghost sv0 = path_views(set@);
    let n = ss.len();
    let mut cur = set;
    let mut i: usize = 0;
    while i < n
        invariant
            i <= n,
            n == ss@.len(),
            spec_eval_segments(root@, ss@, 0, sv0) == spec_eval_segments(
                root@,
                ss@,
                i as int,
                path_views(cur@),
            ),
        decreases n - i,
    {
        cur = eval_segment_exec(root, &ss[i], cur);
        i += 1;
    }
    cur
}

/// The evaluation context: the document root and the working set of matched
/// node locations. A matched node is identified by its index path from the
/// root, which also gives parent and key lookups without any side table.
pub struct EvalCtx<'a> {
    /// The document the evaluation walks over
    pub root: &'a JsonValue,
    /// The paths of the currently matched nodes, in match order
    pub matched: Vec<IdxPath>,
}

impl<'a> EvalCtx<'a> {
    /// A fresh context over a document: the working set holds the root.
    pub fn new(root: &'a JsonValue) -> (r: EvalCtx<'a>)
        ensures
            r.root == root,
            path_views(r.matched@) == seq![Seq::<IdxModel>::empty()],
    {
        let mut matched: Vec<IdxPath> = Vec::new();
        let p0 = IdxPath::new(Vec::new());
        proof {
            assert(p0@ =~= Seq::<IdxModel>::empty());
        }
        matched.push(p0);
        let r = EvalCtx { root, matched };
        proof {
            assert(path_views(r.matched@) =~= seq![Seq::<IdxModel>::empty()]);
        }
        r
    }

    /// The document root this context evaluates over.
    pub fn root(&self) -> (r: &'a JsonValue)
        ensures
            r == self.root,
    {
        self.root
    }

    /// The paths of the currently matched nodes.
    pub fn get_matched(&self) -> (r: &[IdxPath])
        ensures
            r@ == self.matched@,
    {
        self.matched.as_slice()
    }

    /// Replace the working set.
    pub fn set_matched(&mut self, matched: Vec<IdxPath>)
        ensures
            final(self).root == old(self).root,
            final(self).matched == matched,
    {
        self.matched = matched;
    }

    /// The path of the parent of the node at `p`, or `None` at the root.
    pub fn parent_of(&self, p: &IdxPath) -> (r: Option<IdxPath>)
        ensures
            match r {
                Some(q) => p@.len() > 0 && q@ == p@.drop_last(),
                None => p@.len() == 0,
            },
    {
        if p.is_empty() {
            None
        } else {
            Some(p.parent())
        }
    }

    /// The index of the node at `p` within its parent, or `None` at the
    /// root.
    pub fn idx_of(&self, p: &IdxPath) -> (r: Option<Idx>)
        ensures
            match r {
                Some(idx) => p@.len() > 0 && idx@ == p@.last(),
                None => p@.len() == 0,
            },
    {
        match p.last() {
            Some(idx) => Some(idx.clone()),
            None => None,
        }
    }

    /// The index paths of all matched nodes, root-to-leaf.
    pub fn paths_matched(&self) -> (r: Vec<IdxPath>)
        ensures
            path_views(r@) == path_views(self.matched@),
    {
        let n = self.matched.len();
        let mut out: Vec<IdxPath> = Vec::new();
        let mut i: usize = 0;
        while i < n
            invariant
                i <= n,
                n == self.matched@.len(),
                out@.len() == i as int,
                forall|j: int| 0 <= j < i as int ==> out@[j]@ == self.matched@[j]@,
            decreases n - i,
        {
            out.push(self.matched[i].clone());
            i += 1;
        }
        proof {
            assert(path_views(out@) =~= path_views(self.matched@));
        }
        out
    }

    /// Consume the context, handing back the matched paths.
    pub fn into_matched(self) -> (r: Vec<IdxPath>)
        ensures
            r == self.matched,
    {
        self.matched
    }

    /// The values of all matched nodes, cloned out of the document in match
    /// order; a path that does not resolve yields `null`.
    pub fn matched_values(&self) -> (r: Vec<JsonValue>)
        ensures
            r@.len() == self.matched@.len(),
            forall|j: int| 0 <= j < r@.len() ==> r@[j]@ == ({
                match model_resolve(self.root@, self.matched@[j]@) {
                    Some(m) => m,
                    None => JsonModel::Null,
                }
            }),
    {
        let n = self.matched.len();
        let mut out: Vec<JsonValue> = Vec::new();
        let mut i: usize = 0;
        while i < n
            invariant
                i <= n,
                n == self.matched@.len(),
                out@.len() == i as int,
                forall|j: int| 0 <= j < i as int ==> out@[j]@ == ({
                    match model_resolve(self.root@, self.matched@[j]@) {
                        Some(m) => m,
                        None => JsonModel::Null,
                    }
                }),
            decreases n - i,
        {
            match resolve_node(self.root, &self.matched[i]) {
                Some(v) => {
                    out.push(v.clone());
                },
                None => {
                    out.push(JsonValue::Null);
                },
            }
            i += 1;
        }
        out
    }
}

impl Path {
    /// Walk this path's segments over the context's working set. An id
    /// marker on the whole path is reported as unsupported, after the
    /// segments have run.
    pub fn eval(&self, ctx: &mut EvalCtx<'_>) -> (r: Result<(), EvalErr>)
        ensures
            final(ctx).root == old(ctx).root,
            path_views(final(ctx).matched@) == spec_eval_segments(
                old(ctx).root@,
                self.segments@,
                0,
                path_views(old(ctx).matched@),
            ),
            match r {
                Ok(()) => self.tilde is None,
                Err(e) => self.tilde is Some && e@ == EvalErrModel::Unsupported,
            },
    {
        let root = ctx.root;
        let matched = ctx.paths_matched();
        let out = eval_segments_exec(root, self.segments.as_slice(), matched);
        ctx.matched = out;
        if self.is_id() {
            Err(
                EvalErr::Unsupported(
                    String::from_str(
                        "Tilde at the top level isn't yet supported due to API design questions. \
                        Please raise an issue with your use case",
                    ),
                ),
            )
        } else {
            Ok(())
        }
    }
}

// General properties of the evaluation

/// An array-slice endpoint always lands inside the array: an end past the
/// length clamps to the length, and a start further negative than the
/// length clamps to the front.
pub proof fn lemma_slice_endpoints_clamp(len: int, x: int)
    requires
        len >= 0,
    ensures
        0 <= bound_idx(len, x) <= len,
        x >= len ==> bound_idx(len, x) == len,
        x <= -len ==> bound_idx(len, x) == 0,
{
}

/// An integer bracket literal selects from arrays only: on an object or a
/// scalar it selects nothing, and on an array a position out of range on
/// either side selects nothing.
pub proof fn lemma_int_literal_selects_arrays_only(root: JsonModel, p: Seq<IdxModel>, i: i64)
    ensures
        (match model_resolve(root, p) {
            Some(m) => !(m is Arr),
            None => true,
        }) ==> int_lit_entry(root, p, i) == Seq::<Seq<IdxModel>>::empty(),
        (match model_resolve(root, p) {
            Some(m) => m is Arr && (i as int) + m->Arr_0.len() < 0,
            None => false,
        }) ==> int_lit_entry(root, p, i) == Seq::<Seq<IdxModel>>::empty(),
        (match model_resolve(root, p) {
            Some(m) => m is Arr && (i as int) >= m->Arr_0.len(),
            None => false,
        }) ==> int_lit_entry(root, p, i) == Seq::<Seq<IdxModel>>::empty(),
{
}

/// Stepping down to any child and back up through a parent step returns
/// exactly the node stepped from.
pub proof fn lemma_parent_of_child(p: Seq<IdxModel>, idx: IdxModel)
    ensures
        parent_entry(p.push(idx)) == seq![p],
{
    assert(p.push(idx).drop_last() =~= p);
    assert(parent_entry(p.push(idx)) =~= seq![p]);
}

// Produced paths resolve

/// Whether every path of a working set names a node of the document.
pub open spec fn set_valid(root: JsonModel, set: Seq<Seq<IdxModel>>) -> bool {
    forall|k: int| 0 <= k < set.len() ==> model_resolve(root, #[trigger] set[k]) is Some
}

/// Two valid working sets concatenate to a valid working set.
proof fn lemma_set_valid_concat(root: JsonModel, a: Seq<Seq<IdxModel>>, b: Seq<Seq<IdxModel>>)
    requires
        set_valid(root, a),
        set_valid(root, b),
    ensures
        set_valid(root, a + b),
{
    assert forall|k: int| 0 <= k < (a + b).len() implies model_resolve(root, #[trigger] (a + b)[k])
        is Some by {
        if k < a.len() {
            assert((a + b)[k] == a[k]);
        } else {
            assert((a + b)[k] == b[k - a.len()]);
        }
    }
}

/// The child paths a wildcard produces all name nodes.
proof fn lemma_wildcard_entry_valid(root: JsonModel, p: Seq<IdxModel>)
    ensures
        set_valid(root, wildcard_entry(root, p)),
{
    match model_resolve(root, p) {
        Some(m) => {
            assert forall|k: int| 0 <= k < wildcard_entry(root, p).len() implies model_resolve(
                root,
                #[trigger] wildcard_entry(root, p)[k],
            ) is Some by {
                lemma_child_key_get(m, k);
                lemma_resolve_snoc(root, p, child_key_of(m, k));
            }
        },
        None => {},
    }
}

/// The parent path of a node that exists names a node.
proof fn lemma_parent_entry_valid(root: JsonModel, p: Seq<IdxModel>)
    requires
        model_resolve(root, p) is Some,
    ensures
        set_valid(root, parent_entry(p)),
{
    if p.len() > 0 {
        lemma_resolve_parent(root, p);
    }
}

/// The member path a name step produces names a node.
proof fn lemma_name_entry_valid(root: JsonModel, p: Seq<IdxModel>, name: Seq<char>)
    ensures
        set_valid(root, name_entry(root, p, name)),
{
    match model_resolve(root, p) {
        Some(m) => {
            if model_get(m, IdxModel::Key(name)) is Some {
                lemma_resolve_snoc(root, p, IdxModel::Key(name));
            }
        },
        None => {},
    }
}

/// The paths a bracket literal produces name nodes.
proof fn lemma_lit_entry_valid(root: JsonModel, p: Seq<IdxModel>, lit: BracketLit)
    ensures
        set_valid(root, lit_entry(root, p, lit)),
{
    match lit {
        BracketLit::Int(i) => {
            match model_resolve(root, p) {
                Some(m) => {
                    if m is Arr {
                        let v = m->Arr_0;
                        let eff = if i.val < 0 {
                            v.len() + i.val
                        } else {
                            i.val as int
                        };
                        if 0 <= eff < v.len() {
                            lemma_resolve_snoc(root, p, IdxModel::Arr(eff));
                        }
                    }
                },
                None => {},
            }
        },
        BracketLit::String(sl) => {
            let k = crate::ast::string_lit_val(sl);
            match model_resolve(root, p) {
                Some(m) => {
                    if m is Obj && model_get(m, IdxModel::Key(k)) is Some {
                        lemma_resolve_snoc(root, p, IdxModel::Key(k));
                    }
                },
                None => {},
            }
        },
    }
}

/// The paths of a forward slice walk all name array elements.
proof fn lemma_fwd_paths_valid(root: JsonModel, p: Seq<IdxModel>, s: int, e: int, stride: int)
    requires
        model_resolve(root, p) matches Some(m) && m is Arr && e <= m->Arr_0.len(),
        0 <= s,
    ensures
        set_valid(root, fwd_paths(p, s, e, stride)),
    decreases e - s,
{
    if stride <= 0 || s >= e {
    } else {
        lemma_resolve_snoc(root, p, IdxModel::Arr(s));
        let s2 = if s + stride > e {
            e
        } else {
            s + stride
        };
        lemma_fwd_paths_valid(root, p, s2, e, stride);
        lemma_set_valid_concat(
            root,
            seq![p.push(IdxModel::Arr(s))],
            fwd_paths(p, s2, e, stride),
        );
    }
}

/// The paths of a backward slice walk all name array elements.
proof fn lemma_rev_paths_valid(root: JsonModel, p: Seq<IdxModel>, hi: int, lo: int, stride: int)
    requires
        model_resolve(root, p) matches Some(m) && m is Arr && hi < m->Arr_0.len(),
        0 <= lo,
    ensures
        set_valid(root, rev_paths(p, hi, lo, stride)),
    decreases hi - lo + 1,
{
    if stride <= 0 || hi < lo {
    } else {
        lemma_resolve_snoc(root, p, IdxModel::Arr(hi));
        let h2 = if hi - stride < lo - 1 {
            lo - 1
        } else {
            hi - stride
        };
        lemma_rev_paths_valid(root, p, h2, lo, stride);
        lemma_set_valid_concat(
            root,
            seq![p.push(IdxModel::Arr(hi))],
            rev_paths(p, h2, lo, stride),
        );
    }
}

/// The paths a plain range produces name nodes.
proof fn lemma_range_entry_valid(
    root: JsonModel,
    p: Seq<IdxModel>,
    start: Option<i64>,
    end: Option<i64>,
)
    ensures
        set_valid(root, range_entry(root, p, start, end)),
{
    match model_resolve(root, p) {
        Some(m) => {
            if m is Arr {
                let len = m->Arr_0.len() as int;
                lemma_slice_endpoints_clamp(len, match start {
                    Some(x) => x as int,
                    None => 0,
                });
                lemma_slice_endpoints_clamp(len, match end {
                    Some(x) => x as int,
                    None => i64::MAX as int,
                });
                lemma_fwd_paths_valid(
                    root,
                    p,
                    slice_start(len, start),
                    slice_end(len, end),
                    1,
                );
            }
        },
        None => {},
    }
}

/// The paths a stepped range produces name nodes.
proof fn lemma_step_range_entry_valid(
    root: JsonModel,
    p: Seq<IdxModel>,
    start: Option<i64>,
    end: Option<i64>,
    step: i64,
)
    ensures
        set_valid(root, step_range_entry(root, p, start, end, step)),
{
    match model_resolve(root, p) {
        Some(m) => {
            if m is Arr {
                let len = m->Arr_0.len() as int;
                lemma_slice_endpoints_clamp(len, match start {
                    Some(x) => x as int,
                    None => 0,
                });
                lemma_slice_endpoints_clamp(len, match end {
                    Some(x) => x as int,
                    None => i64::MAX as int,
                });
                let sb = slice_start(len, start);
                let eb = slice_end(len, end);
                if step < 0 {
                    lemma_rev_paths_valid(root, p, eb - 1, sb, -(step as int));
                } else {
                    lemma_fwd_paths_valid(root, p, sb, eb, step as int);
                }
            }
        },
        None => {},
    }
}

/// The pre-order subtree paths of a node all name nodes, in a well-formed
/// document.
proof fn lemma_descendant_paths_valid(root: JsonModel, m: JsonModel, p: Seq<IdxModel>)
    requires
        model_resolve(root, p) == Some(m),
        model_wf(m),
    ensures
        set_valid(root, descendant_paths(m, p)),
    decreases m, child_count_of(m) + 1,
{
    lemma_descendant_children_valid(root, m, p, 0);
    lemma_set_valid_concat(root, seq![p], descendant_children(m, p, 0));
}

/// The subtree paths of the children from `i` on all name nodes, in a
/// well-formed document.
proof fn lemma_descendant_children_valid(root: JsonModel, m: JsonModel, p: Seq<IdxModel>, i: int)
    requires
        model_resolve(root, p) == Some(m),
        model_wf(m),
    ensures
        set_valid(root, descendant_children(m, p, i)),
    decreases m, child_count_of(m) - i,
{
    if i < 0 || i >= child_count_of(m) {
    } else {
        lemma_child_key_get(m, i);
        lemma_resolve_snoc(root, p, child_key_of(m, i));
        assert(model_resolve(root, p.push(child_key_of(m, i))) == Some(child_val_of(m, i)));
        assert(model_wf(child_val_of(m, i))) by {
            match m {
                JsonModel::Arr(es) => {
                    assert(model_wf(es[i]));
                },
                JsonModel::Obj(es) => {
                    assert(model_wf(es[i].1));
                },
                _ => {},
            }
        }
        lemma_descendant_paths_valid(root, child_val_of(m, i), p.push(child_key_of(m, i)));
        lemma_descendant_children_valid(root, m, p, i + 1);
        lemma_set_valid_concat(
            root,
            descendant_paths(child_val_of(m, i), p.push(child_key_of(m, i))),
            descendant_children(m, p, i + 1),
        );
    }
}

/// What a recursive-descent step produces names nodes, in a well-formed
/// document.
proof fn lemma_descend_entry_valid(root: JsonModel, p: Seq<IdxModel>)
    requires
        model_wf(root),
    ensures
        set_valid(root, descend_entry(root, p)),
{
    match model_resolve(root, p) {
        Some(m) => {
            lemma_resolve_wf(root, p);
            lemma_descendant_paths_valid(root, m, p);
        },
        None => {},
    }
}

/// The kept children of a filter all name nodes.
proof fn lemma_filter_children_valid(
    root: JsonModel,
    p: Seq<IdxModel>,
    node: JsonModel,
    e: FilterExpr,
    k: int,
)
    requires
        model_resolve(root, p) == Some(node),
    ensures
        set_valid(root, filter_children(root, p, node, e, k)),
    decreases child_count_of(node) - k,
{
    if k < 0 || k >= child_count_of(node) {
    } else {
        let cp = p.push(child_key_of(node, k));
        lemma_child_key_get(node, k);
        lemma_resolve_snoc(root, p, child_key_of(node, k));
        lemma_filter_children_valid(root, p, node, e, k + 1);
        let keep = spec_eval_expr(root, cp, e) == Ok::<JsonModel, EvalErrModel>(
            JsonModel::Bool(true),
        );
        lemma_set_valid_concat(root, if keep {
            seq![cp]
        } else {
            Seq::empty()
        }, filter_children(root, p, node, e, k + 1));
    }
}

/// What a filter produces names nodes.
proof fn lemma_filter_entry_valid(root: JsonModel, p: Seq<IdxModel>, e: FilterExpr)
    ensures
        set_valid(root, filter_entry(root, p, e)),
{
    match model_resolve(root, p) {
        Some(node) => {
            lemma_filter_children_valid(root, p, node, e, 0);
        },
        None => {},
    }
}

/// What one sub-path result contributes names a node.
proof fn lemma_match_convert_valid(
    root: JsonModel,
    p: Seq<IdxModel>,
    q: Seq<IdxModel>,
    tilde: bool,
)
    ensures
        set_valid(root, match_convert(root, p, q, tilde)),
{
    let keyval: Option<JsonModel> = if tilde {
        if q.len() > 0 {
            match q.last() {
                IdxModel::Arr(n) => if 0 <= n <= i64::MAX {
                    Some(JsonModel::Int(n as i64))
                } else {
                    None
                },
                IdxModel::Key(k) => Some(JsonModel::Str(k)),
            }
        } else {
            None
        }
    } else {
        model_resolve(root, q)
    };
    match (model_resolve(root, p), keyval) {
        (Some(JsonModel::Arr(v)), Some(JsonModel::Int(n))) => {
            let eff = if n < 0 {
                v.len() + n
            } else {
                n as int
            };
            if 0 <= eff < v.len() {
                lemma_resolve_snoc(root, p, IdxModel::Arr(eff));
            }
        },
        (Some(JsonModel::Obj(es)), Some(kv)) => {
            let key: Option<Seq<char>> = match kv {
                JsonModel::Str(sv) => Some(sv),
                JsonModel::Int(n) => Some(i64_decimal(n)),
                _ => None,
            };
            match key {
                Some(k) => {
                    if obj_index(es, k) < es.len() {
                        crate::value::lemma_obj_index(es, k);
                        lemma_resolve_snoc(root, p, IdxModel::Key(k));
                    }
                },
                None => {},
            }
        },
        _ => {},
    }
}

/// What a bracket sub-path produces for one entry names nodes.
proof fn lemma_match_entry_valid(root: JsonModel, p: Seq<IdxModel>, sp: SubPath)
    ensures
        set_valid(root, match_entry(root, p, sp)),
    decreases sp, 2int, 1int,
{
    let base: Seq<IdxModel> = match sp.kind {
        PathKind::Root(_) => Seq::empty(),
        PathKind::Relative(_) => p,
    };
    let results = spec_eval_segments(root, sp.segments@, 0, seq![base]);
    if results.len() == 1 {
        lemma_match_convert_valid(root, p, results[0], sp.tilde is Some);
    }
}

/// What one union component produces names nodes, in a well-formed
/// document with a valid incoming working set.
proof fn lemma_component_valid(root: JsonModel, u: UnionComponent, set: Seq<Seq<IdxModel>>)
    requires
        model_wf(root),
        set_valid(root, set),
    ensures
        set_valid(root, spec_eval_component(root, u, set)),
    decreases u, 5int, 1int,
{
    match u {
        UnionComponent::StepRange(sr) => {
            lemma_all_step_valid(
                root,
                opt_lit_val(sr.start),
                opt_lit_val(sr.end),
                step_val(sr.step),
                set,
                0,
            );
        },
        UnionComponent::Range(r) => {
            lemma_all_range_valid(root, opt_lit_val(r.start), opt_lit_val(r.end), set, 0);
        },
        UnionComponent::Parent(_) => {
            lemma_all_parent_valid(root, set, 0);
        },
        UnionComponent::Path(sp) => {
            lemma_all_match_valid(root, sp, set, 0);
        },
        UnionComponent::Filter(f) => {
            lemma_all_filter_valid(root, f.inner, set, 0);
        },
        UnionComponent::Literal(lit) => {
            lemma_all_lit_valid(root, lit, set, 0);
        },
    }
}

/// The wildcard results over a working set name nodes.
proof fn lemma_all_wildcard_valid(root: JsonModel, set: Seq<Seq<IdxModel>>, i: int)
    ensures
        set_valid(root, all_wildcard(root, set, i)),
    decreases set.len() - i,
{
    if i < 0 || i >= set.len() {
    } else {
        lemma_wildcard_entry_valid(root, set[i]);
        lemma_all_wildcard_valid(root, set, i + 1);
        lemma_set_valid_concat(root, wildcard_entry(root, set[i]), all_wildcard(root, set, i + 1));
    }
}

/// The parent results over a valid working set name nodes.
proof fn lemma_all_parent_valid(root: JsonModel, set: Seq<Seq<IdxModel>>, i: int)
    requires
        set_valid(root, set),
    ensures
        set_valid(root, all_parent(set, i)),
    decreases set.len() - i,
{
    if i < 0 || i >= set.len() {
    } else {
        lemma_parent_entry_valid(root, set[i]);
        lemma_all_parent_valid(root, set, i + 1);
        lemma_set_valid_concat(root, parent_entry(set[i]), all_parent(set, i + 1));
    }
}

/// The raw-selector results over a valid working set name nodes.
proof fn lemma_all_raw_valid(root: JsonModel, sel: RawSelector, set: Seq<Seq<IdxModel>>, i: int)
    requires
        set_valid(root, set),
    ensures
        set_valid(root, all_raw(root, sel, set, i)),
    decreases set.len() - i,
{
    if i < 0 || i >= set.len() {
    } else {
        match sel {
            RawSelector::Wildcard(_) => lemma_wildcard_entry_valid(root, set[i]),
            RawSelector::Parent(_) => lemma_parent_entry_valid(root, set[i]),
            RawSelector::Name(name) => lemma_name_entry_valid(root, set[i], name.val@),
        }
        lemma_all_raw_valid(root, sel, set, i + 1);
        lemma_set_valid_concat(
            root,
            raw_sel_entry(root, sel, set[i]),
            all_raw(root, sel, set, i + 1),
        );
    }
}

/// The recursive-descent results over a working set name nodes, in a
/// well-formed document.
proof fn lemma_all_descend_valid(root: JsonModel, set: Seq<Seq<IdxModel>>, i: int)
    requires
        model_wf(root),
    ensures
        set_valid(root, all_descend(root, set, i)),
    decreases set.len() - i,
{
    if i < 0 || i >= set.len() {
    } else {
        lemma_descend_entry_valid(root, set[i]);
        lemma_all_descend_valid(root, set, i + 1);
        lemma_set_valid_concat(root, descend_entry(root, set[i]), all_descend(root, set, i + 1));
    }
}

/// The plain-range results over a working set name nodes.
proof fn lemma_all_range_valid(
    root: JsonModel,
    start: Option<i64>,
    end: Option<i64>,
    set: Seq<Seq<IdxModel>>,
    i: int,
)
    ensures
        set_valid(root, all_range(root, start, end, set, i)),
    decreases set.len() - i,
{
    if i < 0 || i >= set.len() {
    } else {
        lemma_range_entry_valid(root, set[i], start, end);
        lemma_all_range_valid(root, start, end, set, i + 1);
        lemma_set_valid_concat(
            root,
            range_entry(root, set[i], start, end),
            all_range(root, start, end, set, i + 1),
        );
    }
}

/// The stepped-range results over a working set name nodes.
proof fn lemma_all_step_valid(
    root: JsonModel,
    start: Option<i64>,
    end: Option<i64>,
    step: i64,
    set: Seq<Seq<IdxModel>>,
    i: int,
)
    ensures
        set_valid(root, all_step_range(root, start, end, step, set, i)),
    decreases set.len() - i,
{
    if i < 0 || i >= set.len() {
    } else {
        lemma_step_range_entry_valid(root, set[i], start, end, step);
        lemma_all_step_valid(root, start, end, step, set, i + 1);
        lemma_set_valid_concat(
            root,
            step_range_entry(root, set[i], start, end, step),
            all_step_range(root, start, end, step, set, i + 1),
        );
    }
}

/// The bracket-literal results over a working set name nodes.
proof fn lemma_all_lit_valid(root: JsonModel, lit: BracketLit, set: Seq<Seq<IdxModel>>, i: int)
    ensures
        set_valid(root, all_lit(root, lit, set, i)),
    decreases set.len() - i,
{
    if i < 0 || i >= set.len() {
    } else {
        lemma_lit_entry_valid(root, set[i], lit);
        lemma_all_lit_valid(root, lit, set, i + 1);
        lemma_set_valid_concat(root, lit_entry(root, set[i], lit), all_lit(root, lit, set, i + 1));
    }
}

/// The filter results over a working set name nodes.
proof fn lemma_all_filter_valid(root: JsonModel, e: FilterExpr, set: Seq<Seq<IdxModel>>, i: int)
    ensures
        set_valid(root, all_filter(root, e, set, i)),
    decreases e, 5int, set.len() - i + 1,
{
    if i < 0 || i >= set.len() {
    } else {
        lemma_filter_entry_valid(root, set[i], e);
        lemma_all_filter_valid(root, e, set, i + 1);
        lemma_set_valid_concat(root, filter_entry(root, set[i], e), all_filter(root, e, set, i + 1));
    }
}

/// The sub-path results over a working set name nodes.
proof fn lemma_all_match_valid(root: JsonModel, sp: SubPath, set: Seq<Seq<IdxModel>>, i: int)
    ensures
        set_valid(root, all_match(root, sp, set, i)),
    decreases sp, 3int, set.len() - i + 1,
{
    if i < 0 || i >= set.len() {
    } else {
        lemma_match_entry_valid(root, set[i], sp);
        lemma_all_match_valid(root, sp, set, i + 1);
        lemma_set_valid_concat(root, match_entry(root, set[i], sp), all_match(root, sp, set, i + 1));
    }
}

/// What a bracket selector produces on a valid working set names nodes.
proof fn lemma_bracket_valid(root: JsonModel, b: BracketSelector, set: Seq<Seq<IdxModel>>)
    requires
        model_wf(root),
        set_valid(root, set),
    ensures
        set_valid(root, spec_eval_bracket(root, b, set)),
    decreases b, 7int, 1int,
{
    match b {
        BracketSelector::Union(comps) => {
            lemma_union_valid(root, comps@, 0, set);
        },
        BracketSelector::StepRange(sr) => {
            lemma_all_step_valid(
                root,
                opt_lit_val(sr.start),
                opt_lit_val(sr.end),
                step_val(sr.step),
                set,
                0,
            );
        },
        BracketSelector::Range(r) => {
            lemma_all_range_valid(root, opt_lit_val(r.start), opt_lit_val(r.end), set, 0);
        },
        BracketSelector::Wildcard(_) => {
            lemma_all_wildcard_valid(root, set, 0);
        },
        BracketSelector::Parent(_) => {
            lemma_all_parent_valid(root, set, 0);
        },
        BracketSelector::Path(sp) => {
            lemma_all_match_valid(root, sp, set, 0);
        },
        BracketSelector::Filter(f) => {
            lemma_all_filter_valid(root, f.inner, set, 0);
        },
        BracketSelector::Literal(lit) => {
            lemma_all_lit_valid(root, lit, set, 0);
        },
    }
}

/// What the union components produce on a valid working set names nodes.
proof fn lemma_union_valid(
    root: JsonModel,
    comps: Seq<UnionComponent>,
    i: int,
    set: Seq<Seq<IdxModel>>,
)
    requires
        model_wf(root),
        set_valid(root, set),
    ensures
        set_valid(root, spec_eval_union(root, comps, i, set)),
    decreases comps, 6int, comps.len() - i + 1,
{
    if i < 0 || i >= comps.len() {
    } else {
        lemma_component_valid(root, comps[i], set);
        lemma_union_valid(root, comps, i + 1, set);
        lemma_set_valid_concat(
            root,
            spec_eval_component(root, comps[i], set),
            spec_eval_union(root, comps, i + 1, set),
        );
    }
}

/// What one segment produces on a valid working set names nodes.
proof fn lemma_segment_valid(root: JsonModel, s: Segment, set: Seq<Seq<IdxModel>>)
    requires
        model_wf(root),
        set_valid(root, set),
    ensures
        set_valid(root, spec_eval_segment(root, s, set)),
    decreases s, 8int, 1int,
{
    match s {
        Segment::Dot(_, sel) => {
            lemma_all_raw_valid(root, sel, set, 0);
        },
        Segment::Bracket(_, b) => {
            lemma_bracket_valid(root, b, set);
        },
        Segment::Recursive(_, opt) => {
            lemma_all_descend_valid(root, set, 0);
            match opt {
                Some(sel) => {
                    lemma_all_raw_valid(root, sel, all_descend(root, set, 0), 0);
                },
                None => {},
            }
        },
    }
}

/// Evaluating any run of segments over a valid working set of a
/// well-formed document yields paths that all name nodes.
pub proof fn lemma_segments_valid(
    root: JsonModel,
    ss: Seq<Segment>,
    i: int,
    set: Seq<Seq<IdxModel>>,
)
    requires
        model_wf(root),
        set_valid(root, set),
    ensures
        set_valid(root, spec_eval_segments(root, ss, i, set)),
    decreases ss, 9int, ss.len() - i + 1,
{
    if i < 0 || i >= ss.len() {
    } else {
        lemma_segment_valid(root, ss[i], set);
        lemma_segments_valid(root, ss, i + 1, spec_eval_segment(root, ss[i], set));
    }
}

/// Every index path a query reports names a node of the well-formed
/// document it was matched on: the chain of indices reproduces the matched
/// location.
pub proof fn lemma_found_paths_resolve(root: JsonModel, ss: Seq<Segment>)
    requires
        model_wf(root),
    ensures
        forall|k: int|
            0 <= k < spec_eval_path(root, ss).len() ==> model_resolve(
                root,
                #[trigger] spec_eval_path(root, ss)[k],
            ) is Some,
{
    let base = seq![Seq::<IdxModel>::empty()];
    assert(set_valid(root, base)) by {
        assert(model_resolve(root, base[0]) is Some);
    }
    lemma_segments_valid(root, ss, 0, base);
}

} // verus!
