//! A JSONPath query engine: compile a path expression once, then match it
//! against JSON documents, list the index paths of the matches, or delete
//! and replace the matched nodes.

use vstd::prelude::*;

pub mod ast;
pub mod error;
pub mod eval;
pub mod idx;
pub mod mutate;
pub mod parse;
pub mod span;
pub mod value;

pub use ast::Path as JsonPath;

use crate::ast::{Path, Segment};
use crate::eval::{EvalCtx, spec_eval_path};
use crate::idx::{IdxModel, IdxPath, path_views};
use crate::mutate::{
    chain_delete, chain_replace, chain_try_replace, delete_paths, replace_paths, sort_edits,
    try_replace_paths,
};
use crate::error::{ParseError, ParseFail};
use crate::span::Span;
use crate::value::{JsonModel, JsonValue, model_resolve};

verus! {

/// Find a pattern in the provided JSON value. Recompiles the pattern every
/// call; if the same pattern is used a lot, compile it once with
/// [`JsonPath::compile`] instead. A pattern whose whole result would be
/// reported by key (a trailing `~`) is unsupported and reported as a parse
/// error.
pub fn find(pattern: &str, value: &JsonValue) -> (r: Result<Vec<JsonValue>, ParseError>)
    ensures
        r matches Err(e) ==> e.src@ == pattern@,
{
    let path = match Path::compile(pattern) {
        Ok(p) => p,
        Err(e) => {
            return Err(e);
        },
    };
    if path.is_id() {
        let mut errs: Vec<ParseFail> = Vec::new();
        errs.push(
            ParseFail::custom(
                Span::new(0, 0),
                "Tilde at the top level isn't yet supported due to API design questions",
            ),
        );
        return Err(ParseError::new(pattern, errs));
    }
    Ok(path.find(value))
}

impl Path {
    /// Find this pattern in the provided JSON value, returning the matched
    /// nodes' values in match order.
    pub fn find(&self, value: &JsonValue) -> (r: Vec<JsonValue>)
        requires
            self.tilde is None,
        ensures
            ({
                let found = spec_eval_path(value@, self.segments@);
                &&& r@.len() == found.len()
                &&& forall|j: int| 0 <= j < r@.len() ==> r@[j]@ == (match model_resolve(
                    value@,
                    found[j],
                ) {
                    Some(m) => m,
                    None => JsonModel::Null,
                })
            }),
    {
        let mut ctx = EvalCtx::new(value);
        let _ = self.eval(&mut ctx);
        ctx.matched_values()
    }

    /// Find this pattern in the provided JSON value, and return the
    /// shortest paths to all found values as chains of indices.
    pub fn find_paths(&self, value: &JsonValue) -> (r: Vec<IdxPath>)
        requires
            self.tilde is None,
        ensures
            path_views(r@) == spec_eval_path(value@, self.segments@),
    {
        let mut ctx = EvalCtx::new(value);
        let _ = self.eval(&mut ctx);
        ctx.into_matched()
    }

    /// Delete all items matched by this pattern on the provided JSON value,
    /// and return the resulting object.
    pub fn delete(&self, value: &JsonValue) -> (r: JsonValue)
        requires
            self.tilde is None,
        ensures
            r@ == chain_delete(value@, sort_edits(spec_eval_path(value@, self.segments@))),
    {
        let paths = self.find_paths(value);
        let mut out = value.clone();
        delete_paths(paths, &mut out);
        out
    }

    /// Delete all items matched by this pattern on the provided JSON value,
    /// operating in-place.
    pub fn delete_on(&self, value: &mut JsonValue)
        requires
            self.tilde is None,
        ensures
            final(value)@ == chain_delete(
                old(value)@,
                sort_edits(spec_eval_path(old(value)@, self.segments@)),
            ),
    {
        let paths = self.find_paths(value);
        delete_paths(paths, value);
    }

    /// Replace items matched by this pattern on the provided JSON value,
    /// filling them with the value returned by the provided function, then
    /// return the resulting object.
    pub fn replace<F: Fn(&JsonValue) -> JsonValue>(&self, value: &JsonValue, f: F) -> (r: JsonValue)
        requires
            self.tilde is None,
            forall|a: &JsonValue| call_requires(f, (a,)),
        ensures
            exists|ys: Seq<JsonModel>|
                {
                    let sv = sort_edits(spec_eval_path(value@, self.segments@));
                    &&& #[trigger] ys.len() == sv.len()
                    &&& r@ == chain_replace(value@, sv, ys)
                    &&& forall|j: int|
                        0 <= j < sv.len() && sv[j].len() > 0 && model_resolve(
                            chain_replace(value@, sv.take(j), ys.take(j)),
                            sv[j],
                        ) is Some ==> exists|a: JsonValue, yv: JsonValue|
                            {
                                &&& Some(a@) == model_resolve(
                                    chain_replace(value@, sv.take(j), ys.take(j)),
                                    sv[j],
                                )
                                &&& yv@ == ys[j]
                                &&& call_ensures(f, (&a,), yv)
                            }
                },
    {
        let paths = self.find_paths(value);
        let mut out = value.clone();
        replace_paths(paths, &mut out, f);
        out
    }

    /// Replace items matched by this pattern on the provided JSON value,
    /// filling them with the value returned by the provided function,
    /// operating in-place.
    pub fn replace_on<F: Fn(&JsonValue) -> JsonValue>(&self, value: &mut JsonValue, f: F)
        requires
            self.tilde is None,
            forall|a: &JsonValue| call_requires(f, (a,)),
        ensures
            exists|ys: Seq<JsonModel>|
                {
                    let sv = sort_edits(spec_eval_path(old(value)@, self.segments@));
                    &&& #[trigger] ys.len() == sv.len()
                    &&& final(value)@ == chain_replace(old(value)@, sv, ys)
                    &&& forall|j: int|
                        0 <= j < sv.len() && sv[j].len() > 0 && model_resolve(
                            chain_replace(old(value)@, sv.take(j), ys.take(j)),
                            sv[j],
                        ) is Some ==> exists|a: JsonValue, yv: JsonValue|
                            {
                                &&& Some(a@) == model_resolve(
                                    chain_replace(old(value)@, sv.take(j), ys.take(j)),
                                    sv[j],
                                )
                                &&& yv@ == ys[j]
                                &&& call_ensures(f, (&a,), yv)
                            }
                },
    {
        let paths = self.find_paths(value);
        replace_paths(paths, value, f);
    }

    /// Replace or delete items matched by this pattern on the provided JSON
    /// value: replaces where the provided function returns `Some`, deletes
    /// where it returns `None`. Returns the resulting object.
    pub fn try_replace<F: Fn(&JsonValue) -> Option<JsonValue>>(&self, value: &JsonValue, f: F) -> (r:
        JsonValue)
        requires
            self.tilde is None,
            forall|a: &JsonValue| call_requires(f, (a,)),
        ensures
            exists|ys: Seq<Option<JsonModel>>|
                {
                    let sv = sort_edits(spec_eval_path(value@, self.segments@));
                    &&& #[trigger] ys.len() == sv.len()
                    &&& r@ == chain_try_replace(value@, sv, ys)
                    &&& forall|j: int|
                        0 <= j < sv.len() && sv[j].len() > 0 && model_resolve(
                            chain_try_replace(value@, sv.take(j), ys.take(j)),
                            sv[j],
                        ) is Some ==> exists|a: JsonValue, yv: Option<JsonValue>|
                            {
                                &&& Some(a@) == model_resolve(
                                    chain_try_replace(value@, sv.take(j), ys.take(j)),
                                    sv[j],
                                )
                                &&& (match (yv, ys[j]) {
                                    (Some(v), Some(w)) => v@ == w,
                                    (None, None) => true,
                                    _ => false,
                                })
                                &&& call_ensures(f, (&a,), yv)
                            }
                },
    {
        let paths = self.find_paths(value);
        let mut out = value.clone();
        try_replace_paths(paths, &mut out, f);
        out
    }

    /// Replace or delete items matched by this pattern on the provided JSON
    /// value, in place: replaces where the provided function returns
    /// `Some`, deletes where it returns `None`.
    pub fn try_replace_on<F: Fn(&JsonValue) -> Option<JsonValue>>(&self, value: &mut JsonValue, f: F)
        requires
            self.tilde is None,
            forall|a: &JsonValue| call_requires(f, (a,)),
        ensures
            exists|ys: Seq<Option<JsonModel>>|
                {
                    let sv = sort_edits(spec_eval_path(old(value)@, self.segments@));
                    &&& #[trigger] ys.len() == sv.len()
                    &&& final(value)@ == chain_try_replace(old(value)@, sv, ys)
                    &&& forall|j: int|
                        0 <= j < sv.len() && sv[j].len() > 0 && model_resolve(
                            chain_try_replace(old(value)@, sv.take(j), ys.take(j)),
                            sv[j],
                        ) is Some ==> exists|a: JsonValue, yv: Option<JsonValue>|
                            {
                                &&& Some(a@) == model_resolve(
                                    chain_try_replace(old(value)@, sv.take(j), ys.take(j)),
                                    sv[j],
                                )
                                &&& (match (yv, ys[j]) {
                                    (Some(v), Some(w)) => v@ == w,
                                    (None, None) => true,
                                    _ => false,
                                })
                                &&& call_ensures(f, (&a,), yv)
                            }
                },
    {
        let paths = self.find_paths(value);
        try_replace_paths(paths, value, f);
    }
}

/// Deleting with a pattern that matches nothing hands the document back
/// unchanged: an empty match set makes `delete` a no-op.
pub proof fn lemma_delete_no_matches(doc: JsonModel, segs: Seq<Segment>)
    requires
        spec_eval_path(doc, segs) == Seq::<Seq<IdxModel>>::empty(),
    ensures
        chain_delete(doc, sort_edits(spec_eval_path(doc, segs))) == doc,
{
    crate::mutate::lemma_delete_empty_batch(doc);
}

} // verus!
