//! Concrete indices into a JSON document and root-to-node chains of them,
//! the only representation of a match that survives mutation.

use vstd::prelude::*;

use crate::error::{JsonTy, ResolveError, spec_json_ty};
use crate::value::{JsonModel, JsonValue, model_get, model_resolve};

verus! {

broadcast use {vstd::std_specs::vec::group_vec_axioms, vstd::seq::group_seq_axioms};

/// Mathematical abstraction of an index: the view of [`Idx`].
pub enum IdxModel {
    /// A position in an array
    Arr(int),
    /// A member name in an object
    Key(Seq<char>),
}

/// An index on a JSON value, either an integer index on an array or a string
/// index on an object.
#[derive(Debug)]
pub enum Idx {
    /// An array index
    Array(usize),
    /// An object index
    Object(String),
}

impl View for Idx {
    type V = IdxModel;

    open spec fn view(&self) -> IdxModel {
        match self {
            Idx::Array(i) => IdxModel::Arr(*i as int),
            Idx::Object(s) => IdxModel::Key(s@),
        }
    }
}

impl Clone for Idx {
    /// Cloning keeps the index value.
    fn clone(&self) -> (r: Self)
        ensures
            r@ == self@,
    {
        match self {
            Idx::Array(i) => Idx::Array(*i),
            Idx::Object(s) => Idx::Object(s.clone()),
        }
    }
}

impl PartialEq for Idx {
    fn eq(&self, other: &Self) -> (r: bool) {
        match (self, other) {
            (Idx::Array(a), Idx::Array(b)) => a == b,
            (Idx::Object(a), Idx::Object(b)) => *a == *b,
            _ => false,
        }
    }
}

impl vstd::std_specs::cmp::PartialEqSpecImpl for Idx {
    open spec fn obeys_eq_spec() -> bool {
        true
    }

    open spec fn eq_spec(&self, other: &Self) -> bool {
        self@ == other@
    }
}

impl Idx {
    /// Whether this is an array index.
    pub fn is_array(&self) -> (r: bool)
        ensures
            r == self@ is Arr,
    {
        matches!(self, Idx::Array(_))
    }

    /// Whether this is an object index.
    pub fn is_object(&self) -> (r: bool)
        ensures
            r == self@ is Key,
    {
        matches!(self, Idx::Object(_))
    }

    /// Get this index as an array index, or None.
    pub fn as_array(&self) -> (r: Option<usize>)
        ensures
            match r {
                Some(i) => self@ == IdxModel::Arr(i as int),
                None => self@ is Key,
            },
    {
        match self {
            Idx::Array(u) => Some(*u),
            _ => None,
        }
    }

    /// Get this index as an object index, or None.
    pub fn as_object(&self) -> (r: Option<&str>)
        ensures
            match r {
                Some(s) => self@ == IdxModel::Key(s@),
                None => self@ is Arr,
            },
    {
        match self {
            Idx::Object(s) => Some(s.as_str()),
            _ => None,
        }
    }
}

/// A shortest root-to-node chain of indices on a JSON value.
#[derive(Debug)]
pub struct IdxPath(Vec<Idx>);

impl View for IdxPath {
    type V = Seq<IdxModel>;

    closed spec fn view(&self) -> Seq<IdxModel> {
        Seq::new(self.0@.len(), |i: int| if 0 <= i < self.0@.len() {
            self.0@[i]@
        } else {
            IdxModel::Arr(0)
        })
    }
}

impl Clone for IdxPath {
    /// Cloning keeps the chain of indices.
    fn clone(&self) -> (r: Self)
        ensures
            r@ == self@,
    {
        let n = self.0.len();
        let mut out: Vec<Idx> = Vec::new();
        let mut i: usize = 0;
        while i < n
            invariant
                i <= n,
                n == self.0@.len(),
                out@.len() == i as int,
                forall|j: int| 0 <= j < i as int ==> out@[j]@ == self.0@[j]@,
            decreases n - i,
        {
            out.push(self.0[i].clone());
            i += 1;
        }
        let r = IdxPath(out);
        proof {
            assert(r@ =~= self@);
        }
        r
    }
}

impl IdxPath {
    /// Build a path from a chain of indices, root side first.
    pub fn new(indices: Vec<Idx>) -> (r: IdxPath)
        ensures
            r@.len() == indices@.len(),
            forall|i: int| 0 <= i < indices@.len() ==> r@[i] == indices@[i]@,
    {
        IdxPath(indices)
    }

    /// Reference this path as a raw slice of indices.
    pub fn raw_path(&self) -> (r: &[Idx])
        ensures
            r@.len() == self@.len(),
            forall|i: int| 0 <= i < self@.len() ==> r@[i]@ == self@[i],
    {
        self.0.as_slice()
    }

    /// The number of indices in this path.
    pub fn len(&self) -> (r: usize)
        ensures
            r == self@.len(),
    {
        self.0.len()
    }

    /// Whether this path is empty, that is, names the document root.
    pub fn is_empty(&self) -> (r: bool)
        ensures
            r == (self@.len() == 0),
    {
        self.0.len() == 0
    }

    /// The path of this node's child at `idx`.
    pub fn child(&self, idx: Idx) -> (r: IdxPath)
        ensures
            r@ == self@.push(idx@),
    {
        let mut out = self.clone();
        out.0.push(idx);
        proof {
            assert(out@ =~= self@.push(idx@));
        }
        out
    }

    /// The path of this node's parent.
    pub fn parent(&self) -> (r: IdxPath)
        requires
            self@.len() > 0,
        ensures
            r@ == self@.drop_last(),
    {
        let mut out = self.clone();
        let _ = out.0.pop();
        proof {
            assert(out@ =~= self@.drop_last());
        }
        out
    }

    /// The last index of this path, or `None` when it names the root.
    pub fn last(&self) -> (r: Option<&Idx>)
        ensures
            match r {
                Some(idx) => self@.len() > 0 && idx@ == self@.last(),
                None => self@.len() == 0,
            },
    {
        let n = self.0.len();
        if n > 0 {
            Some(&self.0[n - 1])
        } else {
            None
        }
    }

    /// Remove the last `n` items from this path.
    pub fn remove(&self, n: usize) -> (r: IdxPath)
        requires
            n <= self@.len(),
        ensures
            r@ == self@.take(self@.len() - n as int),
    {
        let keep = self.0.len() - n;
        let mut out: Vec<Idx> = Vec::new();
        let mut i: usize = 0;
        while i < keep
            invariant
                i <= keep,
                keep as int == self.0@.len() - n as int,
                n <= self.0@.len(),
                out@.len() == i as int,
                forall|j: int| 0 <= j < i as int ==> out@[j]@ == self.0@[j]@,
            decreases keep - i,
        {
            out.push(self.0[i].clone());
            i += 1;
        }
        let r = IdxPath(out);
        proof {
            assert(r@ =~= self@.take(self@.len() - n as int));
        }
        r
    }
}

/// Mathematical abstraction of a resolve failure: the view of
/// [`ResolveError`].
pub enum ResolveErrModel {
    /// The walk met a value of the wrong type
    Mismatched {
        /// Type that was expected
        expected: JsonTy,
        /// Type that was found
        actual: JsonTy,
    },
    /// The walk met a container without the wanted index
    Missing(IdxModel),
}

impl View for ResolveError {
    type V = ResolveErrModel;

    open spec fn view(&self) -> ResolveErrModel {
        match self {
            ResolveError::MismatchedTy { expected, actual } => ResolveErrModel::Mismatched {
                expected: *expected,
                actual: *actual,
            },
            ResolveError::MissingIdx(idx) => ResolveErrModel::Missing(idx@),
        }
    }
}

/// The container type an index expects to step into.
pub open spec fn expected_ty(idx: IdxModel) -> JsonTy {
    match idx {
        IdxModel::Arr(_) => JsonTy::Array,
        IdxModel::Key(_) => JsonTy::Object,
    }
}

/// Whether a value has the container shape an index expects.
pub open spec fn shape_fits(m: JsonModel, idx: IdxModel) -> bool {
    match idx {
        IdxModel::Arr(_) => m is Arr,
        IdxModel::Key(_) => m is Obj,
    }
}

/// The full outcome of walking a chain of indices from `m`: the node it
/// names, or the first failure met on the way.
pub open spec fn model_resolve_full(m: JsonModel, path: Seq<IdxModel>) -> Result<
    JsonModel,
    ResolveErrModel,
>
    decreases path.len(),
{
    if path.len() == 0 {
        Ok(m)
    } else if !shape_fits(m, path[0]) {
        Err(ResolveErrModel::Mismatched { expected: expected_ty(path[0]), actual: spec_json_ty(m) })
    } else {
        match model_get(m, path[0]) {
            Some(c) => model_resolve_full(c, path.drop_first()),
            None => Err(ResolveErrModel::Missing(path[0])),
        }
    }
}

/// Resolving in full succeeds exactly where the plain walk finds a node, and
/// on the same node.
pub proof fn lemma_resolve_full_ok(m: JsonModel, path: Seq<IdxModel>)
    ensures
        model_resolve_full(m, path) is Ok <==> model_resolve(m, path) is Some,
        model_resolve_full(m, path) matches Ok(v) ==> model_resolve(m, path) == Some(v),
    decreases path.len(),
{
    if path.len() != 0 {
        match model_get(m, path[0]) {
            Some(c) => lemma_resolve_full_ok(c, path.drop_first()),
            None => {},
        }
    }
}

impl IdxPath {
    /// Resolve this path on a value, returning a reference to the node it
    /// names or the first failure met on the way.
    pub fn resolve_on<'a>(&self, value: &'a JsonValue) -> (r: Result<&'a JsonValue, ResolveError>)
        ensures
            match r {
                Ok(v) => model_resolve_full(value@, self@) == Ok::<JsonModel, ResolveErrModel>(v@),
                Err(e) => model_resolve_full(value@, self@) == Err::<JsonModel, ResolveErrModel>(
                    e@,
                ),
            },
    {
        let path = self.raw_path();
        let mut cur: &JsonValue = value;
        let n = path.len();
        let mut i: usize = 0;
        proof {
            assert(self@.skip(0) =~= self@);
        }
        while i < n
            invariant
                i <= n,
                n == self@.len(),
                path@.len() == self@.len(),
                forall|j: int| 0 <= j < self@.len() ==> path@[j]@ == self@[j],
                model_resolve_full(value@, self@) == model_resolve_full(cur@, self@.skip(i as int)),
            decreases n - i,
        {
            let idx = &path[i];
            let ghost rest = self@.skip(i as int);
            proof {
                assert(rest[0] == idx@);
                assert(rest.drop_first() =~= self@.skip(i as int + 1));
            }
            match cur.get(idx) {
                Some(child) => {
                    cur = child;
                },
                None => {
                    let fits = match (cur, idx) {
                        (JsonValue::Array(_), Idx::Array(_)) => true,
                        (JsonValue::Object(_), Idx::Object(_)) => true,
                        _ => false,
                    };
                    if fits {
                        return Err(ResolveError::MissingIdx(idx.clone()));
                    } else {
                        return Err(
                            ResolveError::mismatched(expected_of(idx), cur),
                        );
                    }
                },
            }
            i += 1;
        }
        proof {
            assert(self@.skip(n as int) =~= Seq::<IdxModel>::empty());
        }
        Ok(cur)
    }

    /// The comparator that orders a batch of edits: longer paths first, and
    /// for equal-length paths ending in array indices, higher index first.
    pub fn sort_specific_last(left: &IdxPath, right: &IdxPath) -> (r: core::cmp::Ordering)
        ensures
            r == spec_sort_specific_last(left@, right@),
    {
        if left.is_empty() && right.is_empty() {
            return core::cmp::Ordering::Equal;
        }
        if right.len() < left.len() {
            return core::cmp::Ordering::Less;
        }
        if right.len() > left.len() {
            return core::cmp::Ordering::Greater;
        }
        let l = &left.raw_path()[left.len() - 1];
        let r = &right.raw_path()[right.len() - 1];
        match (l, r) {
            (Idx::Array(li), Idx::Array(ri)) => {
                if *ri < *li {
                    core::cmp::Ordering::Less
                } else if *ri > *li {
                    core::cmp::Ordering::Greater
                } else {
                    core::cmp::Ordering::Equal
                }
            },
            _ => core::cmp::Ordering::Equal,
        }
    }
}

/// The container type an index value expects to step into.
fn expected_of(idx: &Idx) -> (r: JsonTy)
    ensures
        r == expected_ty(idx@),
{
    match idx {
        Idx::Array(_) => JsonTy::Array,
        Idx::Object(_) => JsonTy::Object,
    }
}

/// The order [`IdxPath::sort_specific_last`] reports for a pair of paths:
/// `Less` sorts `left` before `right`.
pub open spec fn spec_sort_specific_last(left: Seq<IdxModel>, right: Seq<IdxModel>) -> core::cmp::Ordering {
    if left.len() == 0 && right.len() == 0 {
        core::cmp::Ordering::Equal
    } else if right.len() < left.len() {
        core::cmp::Ordering::Less
    } else if right.len() > left.len() {
        core::cmp::Ordering::Greater
    } else {
        match (left.last(), right.last()) {
            (IdxModel::Arr(li), IdxModel::Arr(ri)) => if ri < li {
                core::cmp::Ordering::Less
            } else if ri > li {
                core::cmp::Ordering::Greater
            } else {
                core::cmp::Ordering::Equal
            },
            _ => core::cmp::Ordering::Equal,
        }
    }
}

/// The abstractions of a sequence of index paths.
pub open spec fn path_views(ps: Seq<IdxPath>) -> Seq<Seq<IdxModel>> {
    ps.map_values(|p: IdxPath| p@)
}

} // verus!
