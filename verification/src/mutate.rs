//! Applying a batch of edits — deletions and replacements at resolved index
//! paths — to a document, ordered so that no edit shifts the target of a
//! later one.

use vstd::prelude::*;

use crate::idx::{Idx, IdxModel, IdxPath, path_views};
use crate::value::{
    JsonEntry, JsonModel, JsonValue, entries_view, key_position, model_get, model_remove,
    model_set, obj_index,
};

verus! {

broadcast use {vstd::std_specs::vec::group_vec_axioms, vstd::seq::group_seq_axioms};

/// The document after deleting the node a path names, or `None` when the
/// path does not resolve (the root cannot be deleted).
pub open spec fn delete_at(m: JsonModel, path: Seq<IdxModel>) -> Option<JsonModel>
    decreases path.len(),
{
    if path.len() == 0 {
        None
    } else if path.len() == 1 {
        model_remove(m, path[0])
    } else {
        match model_get(m, path[0]) {
            Some(c) => match delete_at(c, path.drop_first()) {
                Some(c2) => model_set(m, path[0], c2),
                None => None,
            },
            None => None,
        }
    }
}

/// The document after replacing the node a path names with `v`, or `None`
/// when the path does not resolve (the root cannot be replaced).
pub open spec fn set_at(m: JsonModel, path: Seq<IdxModel>, v: JsonModel) -> Option<JsonModel>
    decreases path.len(),
{
    if path.len() == 0 {
        None
    } else if path.len() == 1 {
        model_set(m, path[0], v)
    } else {
        match model_get(m, path[0]) {
            Some(c) => match set_at(c, path.drop_first(), v) {
                Some(c2) => model_set(m, path[0], c2),
                None => None,
            },
            None => None,
        }
    }
}

/// The abstractions of a sequence of concrete indices.
pub open spec fn idx_views(s: Seq<Idx>) -> Seq<IdxModel> {
    s.map_values(|x: Idx| x@)
}

/// Delete the node `path[from..]` names under `v`. Returns whether a node
/// was deleted; when none was, the value is unchanged.
fn delete_sub(v: &mut JsonValue, path: &[Idx], from: usize) -> (r: bool)
    requires
        from < path@.len(),
    ensures
        ({
            let rest = idx_views(path@).skip(from as int);
            match delete_at(old(v)@, rest) {
                Some(m2) => r && final(v)@ == m2,
                None => !r && final(v)@ == old(v)@,
            }
        }),
    decreases path@.len() - from,
{
    let ghost rest = idx_views(path@).skip(from as int);
    if from == path.len() - 1 {
        proof {
            assert(rest.len() == 1);
            assert(rest[0] == path@[from as int]@);
        }
        match v.remove(&path[from]) {
            Some(_) => true,
            None => false,
        }
    } else {
        let idx = &path[from];
        let ghost sub = idx_views(path@).skip(from as int + 1);
        proof {
            assert(rest.drop_first() =~= sub);
            assert(rest[0] == idx@);
        }
        match (&mut *v, idx) {
            (JsonValue::Array(vec), Idx::Array(k)) => {
                if *k < vec.len() {
                    let child = &mut vec[*k];
                    let r = delete_sub(child, path, from + 1);
                    proof {
                        if r {
                            assert(final(v)@->Arr_0 =~= old(v)@->Arr_0.update(
                                *k as int,
                                delete_at(old(v)@->Arr_0[*k as int], sub).unwrap(),
                            ));
                        } else {
                            assert(final(v)@->Arr_0 =~= old(v)@->Arr_0);
                        }
                    }
                    r
                } else {
                    false
                }
            },
            (JsonValue::Object(m), Idx::Object(key)) => {
                match key_position(m, key) {
                    Some(p) => {
                        let entry = &mut m[p];
                        let r = delete_sub(&mut entry.value, path, from + 1);
                        proof {
                            let es = old(v)@->Obj_0;
                            let q = obj_index(es, key@);
                            assert(q == p as int);
                            if r {
                                assert(final(v)@->Obj_0 =~= es.update(
                                    q,
                                    (key@, delete_at(es[q].1, sub).unwrap()),
                                ));
                            } else {
                                assert(final(v)@->Obj_0 =~= es);
                            }
                        }
                        r
                    },
                    None => false,
                }
            },
            _ => false,
        }
    }
}

/// Whether edit `a` may stand before edit `b`: longer paths first; among
/// equal-length paths, array positions before object keys and higher array
/// positions first. A total preorder: every pair is ordered at least one
/// way, so deletions never shift the target of a later edit.
pub open spec fn edit_precedes(a: Seq<IdxModel>, b: Seq<IdxModel>) -> bool {
    if a.len() != b.len() {
        a.len() > b.len()
    } else if a.len() == 0 {
        true
    } else {
        match (a.last(), b.last()) {
            (IdxModel::Arr(x), IdxModel::Arr(y)) => x >= y,
            (IdxModel::Arr(_), IdxModel::Key(_)) => true,
            (IdxModel::Key(_), IdxModel::Arr(_)) => false,
            (IdxModel::Key(_), IdxModel::Key(_)) => true,
        }
    }
}

/// `x` inserted into `s` after every edit that may stand before it.
pub open spec fn insert_edit(x: Seq<IdxModel>, s: Seq<Seq<IdxModel>>) -> Seq<Seq<IdxModel>>
    decreases s.len(),
{
    if s.len() == 0 {
        seq![x]
    } else if edit_precedes(s[0], x) {
        seq![s[0]] + insert_edit(x, s.drop_first())
    } else {
        seq![x] + s
    }
}

/// The batch of edits in the order they are applied: a stable insertion
/// sort by [`edit_precedes`].
pub open spec fn sort_edits(s: Seq<Seq<IdxModel>>) -> Seq<Seq<IdxModel>>
    decreases s.len(),
{
    if s.len() == 0 {
        s
    } else {
        insert_edit(s.last(), sort_edits(s.drop_last()))
    }
}

/// The document after a batch of deletions, applied in order; an edit whose
/// path does not resolve leaves the document as it stands.
pub open spec fn chain_delete(m: JsonModel, ps: Seq<Seq<IdxModel>>) -> JsonModel
    decreases ps.len(),
{
    if ps.len() == 0 {
        m
    } else {
        let m1 = match delete_at(m, ps[0]) {
            Some(x) => x,
            None => m,
        };
        chain_delete(m1, ps.drop_first())
    }
}

/// Appending one more deletion to a batch deletes it on the batch's result.
pub proof fn lemma_chain_delete_snoc(m: JsonModel, ps: Seq<Seq<IdxModel>>, x: Seq<IdxModel>)
    ensures
        chain_delete(m, ps + seq![x]) == ({
            let m1 = chain_delete(m, ps);
            match delete_at(m1, x) {
                Some(y) => y,
                None => m1,
            }
        }),
    decreases ps.len(),
{
    if ps.len() == 0 {
        assert((ps + seq![x]).drop_first() =~= Seq::<Seq<IdxModel>>::empty());
        assert((ps + seq![x])[0] == x);
        let m1 = match delete_at(m, x) {
            Some(y) => y,
            None => m,
        };
        assert(chain_delete(m1, Seq::<Seq<IdxModel>>::empty()) == m1);
        assert(chain_delete(m, ps) == m);
    } else {
        let m1 = match delete_at(m, ps[0]) {
            Some(y) => y,
            None => m,
        };
        assert((ps + seq![x])[0] == ps[0]);
        assert((ps + seq![x]).drop_first() =~= ps.drop_first() + seq![x]);
        lemma_chain_delete_snoc(m1, ps.drop_first(), x);
    }
}

/// Whether edit `a` may stand before edit `b`, on concrete paths.
fn edit_precedes_exec(a: &IdxPath, b: &IdxPath) -> (r: bool)
    ensures
        r == edit_precedes(a@, b@),
{
    let alen = a.len();
    let blen = b.len();
    if alen != blen {
        alen > blen
    } else if alen == 0 {
        true
    } else {
        let la = &a.raw_path()[alen - 1];
        let lb = &b.raw_path()[blen - 1];
        match (la, lb) {
            (Idx::Array(x), Idx::Array(y)) => *x >= *y,
            (Idx::Array(_), Idx::Object(_)) => true,
            (Idx::Object(_), Idx::Array(_)) => false,
            (Idx::Object(_), Idx::Object(_)) => true,
        }
    }
}

/// Insert `x` into the sorted batch `out` after every edit that may stand
/// before it.
fn insert_pos(x: &IdxPath, out: &Vec<IdxPath>) -> (j: usize)
    ensures
        j <= out@.len(),
        forall|k: int| 0 <= k < j as int ==> edit_precedes(path_views(out@)[k], x@),
        (j as int) < out@.len() ==> !edit_precedes(path_views(out@)[j as int], x@),
{
    let n = out.len();
    let mut j: usize = 0;
    while j < n
        invariant
            j <= n,
            n == out@.len(),
            forall|k: int| 0 <= k < j as int ==> edit_precedes(path_views(out@)[k], x@),
        decreases n - j,
    {
        if !edit_precedes_exec(&out[j], x) {
            return j;
        }
        j += 1;
    }
    j
}

/// Insert `x` into the sorted batch `out` after every edit that may stand
/// before it.
fn insert_sorted(x: IdxPath, out: &mut Vec<IdxPath>)
    ensures
        path_views(final(out)@) == insert_edit(x@, path_views(old(out)@)),
{
    let j = insert_pos(&x, out);
    let ghost before = path_views(out@);
    out.insert(j, x);
    proof {
        assert(path_views(final(out)@) =~= before.insert(j as int, x@));
        lemma_insert_edit_at(x@, before, j as int);
    }
}

/// Where the first edit of `s` that may not stand before `x` sits at `j`,
/// inserting `x` into `s` puts it exactly there.
proof fn lemma_insert_edit_at(x: Seq<IdxModel>, s: Seq<Seq<IdxModel>>, j: int)
    requires
        0 <= j <= s.len(),
        forall|k: int| 0 <= k < j ==> edit_precedes(s[k], x),
        j < s.len() ==> !edit_precedes(s[j], x),
    ensures
        insert_edit(x, s) == s.insert(j, x),
    decreases s.len(),
{
    if s.len() == 0 {
        assert(insert_edit(x, s) =~= s.insert(0, x));
    } else if j == 0 {
        assert(insert_edit(x, s) =~= s.insert(0, x));
    } else {
        lemma_insert_edit_at(x, s.drop_first(), j - 1);
        assert(insert_edit(x, s) == seq![s[0]] + s.drop_first().insert(j - 1, x));
        assert(seq![s[0]] + s.drop_first().insert(j - 1, x) =~= s.insert(j, x));
    }
}

/// The batch of paths in the order the edits are applied.
fn sort_paths(paths: &Vec<IdxPath>) -> (r: Vec<IdxPath>)
    ensures
        path_views(r@) == sort_edits(path_views(paths@)),
{
    let mut out: Vec<IdxPath> = Vec::new();
    let n = paths.len();
    let mut i: usize = 0;
    proof {
        assert(path_views(paths@.take(0)) =~= Seq::<Seq<IdxModel>>::empty());
        assert(path_views(out@) =~= Seq::<Seq<IdxModel>>::empty());
    }
    while i < n
        invariant
            i <= n,
            n == paths@.len(),
            path_views(out@) == sort_edits(path_views(paths@.take(i as int))),
        decreases n - i,
    {
        insert_sorted(paths[i].clone(), &mut out);
        proof {
            let t1 = paths@.take(i as int + 1);
            assert(path_views(t1).drop_last() =~= path_views(paths@.take(i as int)));
            assert(path_views(t1).last() == paths@[i as int]@);
            assert(path_views(t1) =~= path_views(paths@.take(i as int)).push(paths@[i as int]@));
        }
        i += 1;
    }
    proof {
        assert(paths@.take(n as int) =~= paths@);
    }
    out
}

/// Delete the nodes the given paths name, in an order where no deletion
/// shifts the target of a later one: deeper paths first, and inside one
/// array higher positions first. A path that no longer resolves deletes
/// nothing.
pub fn delete_paths(paths: Vec<IdxPath>, out: &mut JsonValue)
    ensures
        final(out)@ == chain_delete(old(out)@, sort_edits(path_views(paths@))),
{
    let sorted = sort_paths(&paths);
    let ghost sv = path_views(sorted@);
    let n = sorted.len();
    let mut i: usize = 0;
    proof {
        assert(sv.take(0) =~= Seq::<Seq<IdxModel>>::empty());
    }
    while i < n
        invariant
            i <= n,
            n == sorted@.len(),
            sv == path_views(sorted@),
            out@ == chain_delete(old(out)@, sv.take(i as int)),
        decreases n - i,
    {
        let p = &sorted[i];
        proof {
            assert(sv.take(i as int + 1) =~= sv.take(i as int) + seq![sv[i as int]]);
            lemma_chain_delete_snoc(old(out)@, sv.take(i as int), sv[i as int]);
        }
        if !p.is_empty() {
            let raw = p.raw_path();
            proof {
                assert(idx_views(raw@) =~= p@);
                assert(idx_views(raw@).skip(0) =~= p@);
            }
            delete_sub(out, raw, 0);
        }
        i += 1;
    }
    proof {
        assert(sv.take(n as int) =~= sv);
    }
}

/// Replace the node `path[from..]` names under `v` with `newv`. Returns
/// whether a node was replaced; when none was, the value is unchanged.
fn set_sub(v: &mut JsonValue, path: &[Idx], from: usize, newv: JsonValue) -> (r: bool)
    requires
        from < path@.len(),
    ensures
        ({
            let rest = idx_views(path@).skip(from as int);
            match set_at(old(v)@, rest, newv@) {
                Some(m2) => r && final(v)@ == m2,
                None => !r && final(v)@ == old(v)@,
            }
        }),
    decreases path@.len() - from,
{
    let ghost rest = idx_views(path@).skip(from as int);
    let idx = &path[from];
    proof {
        assert(rest[0] == idx@);
    }
    if from == path.len() - 1 {
        proof {
            assert(rest.len() == 1);
        }
        match (&mut *v, idx) {
            (JsonValue::Array(vec), Idx::Array(k)) => {
                if *k < vec.len() {
                    let slot = &mut vec[*k];
                    *slot = newv;
                    proof {
                        assert(final(v)@->Arr_0 =~= old(v)@->Arr_0.update(*k as int, newv@));
                    }
                    true
                } else {
                    false
                }
            },
            (JsonValue::Object(m), Idx::Object(key)) => {
                match key_position(m, key) {
                    Some(p) => {
                        let entry = &mut m[p];
                        entry.value = newv;
                        proof {
                            let es = old(v)@->Obj_0;
                            let q = obj_index(es, key@);
                            assert(q == p as int);
                            assert(final(v)@->Obj_0 =~= es.update(q, (key@, newv@)));
                        }
                        true
                    },
                    None => false,
                }
            },
            _ => false,
        }
    } else {
        let ghost sub = idx_views(path@).skip(from as int + 1);
        proof {
            assert(rest.drop_first() =~= sub);
        }
        match (&mut *v, idx) {
            (JsonValue::Array(vec), Idx::Array(k)) => {
                if *k < vec.len() {
                    let child = &mut vec[*k];
                    let r = set_sub(child, path, from + 1, newv);
                    proof {
                        if r {
                            assert(final(v)@->Arr_0 =~= old(v)@->Arr_0.update(
                                *k as int,
                                set_at(old(v)@->Arr_0[*k as int], sub, newv@).unwrap(),
                            ));
                        } else {
                            assert(final(v)@->Arr_0 =~= old(v)@->Arr_0);
                        }
                    }
                    r
                } else {
                    false
                }
            },
            (JsonValue::Object(m), Idx::Object(key)) => {
                match key_position(m, key) {
                    Some(p) => {
                        let entry = &mut m[p];
                        let r = set_sub(&mut entry.value, path, from + 1, newv);
                        proof {
                            let es = old(v)@->Obj_0;
                            let q = obj_index(es, key@);
                            assert(q == p as int);
                            if r {
                                assert(final(v)@->Obj_0 =~= es.update(
                                    q,
                                    (key@, set_at(es[q].1, sub, newv@).unwrap()),
                                ));
                            } else {
                                assert(final(v)@->Obj_0 =~= es);
                            }
                        }
                        r
                    },
                    None => false,
                }
            },
            _ => false,
        }
    }
}

/// A replacement lands exactly where the path resolves to a node below the
/// root, whatever the new value.
pub proof fn lemma_set_at_resolves(m: JsonModel, path: Seq<IdxModel>, v: JsonModel)
    requires
        path.len() > 0,
    ensures
        set_at(m, path, v) is Some <==> crate::value::model_resolve(m, path) is Some,
    decreases path.len(),
{
    if path.len() == 1 {
        match model_get(m, path[0]) {
            Some(c) => {
                assert(crate::value::model_resolve(c, path.drop_first()) is Some);
            },
            None => {},
        }
    } else {
        match model_get(m, path[0]) {
            Some(c) => {
                lemma_set_at_resolves(c, path.drop_first(), v);
            },
            None => {},
        }
    }
}

/// A deletion lands exactly where the path resolves to a node below the
/// root.
pub proof fn lemma_delete_at_resolves(m: JsonModel, path: Seq<IdxModel>)
    requires
        path.len() > 0,
    ensures
        delete_at(m, path) is Some <==> crate::value::model_resolve(m, path) is Some,
    decreases path.len(),
{
    if path.len() == 1 {
        match model_get(m, path[0]) {
            Some(c) => {
                assert(crate::value::model_resolve(c, path.drop_first()) is Some);
            },
            None => {},
        }
    } else {
        match model_get(m, path[0]) {
            Some(c) => {
                lemma_delete_at_resolves(c, path.drop_first());
            },
            None => {},
        }
    }
}

/// The document after a batch of replacements, applied in order; step `i`
/// writes `ys[i]` at its path, and an edit whose path does not resolve
/// leaves the document as it stands.
pub open spec fn chain_replace(m: JsonModel, ps: Seq<Seq<IdxModel>>, ys: Seq<JsonModel>) -> JsonModel
    decreases ps.len(),
{
    if ps.len() == 0 {
        m
    } else {
        let m1 = match set_at(m, ps[0], ys[0]) {
            Some(x) => x,
            None => m,
        };
        chain_replace(m1, ps.drop_first(), ys.drop_first())
    }
}

/// Appending one more replacement to a batch applies it on the batch's
/// result.
pub proof fn lemma_chain_replace_snoc(
    m: JsonModel,
    ps: Seq<Seq<IdxModel>>,
    ys: Seq<JsonModel>,
    x: Seq<IdxModel>,
    y: JsonModel,
)
    requires
        ps.len() == ys.len(),
    ensures
        chain_replace(m, ps + seq![x], ys + seq![y]) == ({
            let m1 = chain_replace(m, ps, ys);
            match set_at(m1, x, y) {
                Some(z) => z,
                None => m1,
            }
        }),
    decreases ps.len(),
{
    if ps.len() == 0 {
        assert((ps + seq![x]).drop_first() =~= Seq::<Seq<IdxModel>>::empty());
        assert((ys + seq![y]).drop_first() =~= Seq::<JsonModel>::empty());
        assert((ps + seq![x])[0] == x);
        assert((ys + seq![y])[0] == y);
        let m1 = match set_at(m, x, y) {
            Some(z) => z,
            None => m,
        };
        assert(chain_replace(m1, Seq::<Seq<IdxModel>>::empty(), Seq::<JsonModel>::empty()) == m1);
        assert(chain_replace(m, ps, ys) == m);
    } else {
        let m1 = match set_at(m, ps[0], ys[0]) {
            Some(z) => z,
            None => m,
        };
        assert((ps + seq![x])[0] == ps[0]);
        assert((ys + seq![y])[0] == ys[0]);
        assert((ps + seq![x]).drop_first() =~= ps.drop_first() + seq![x]);
        assert((ys + seq![y]).drop_first() =~= ys.drop_first() + seq![y]);
        lemma_chain_replace_snoc(m1, ps.drop_first(), ys.drop_first(), x, y);
    }
}

/// Replace the nodes the given paths name, filling each with what `f`
/// returns for its current value, in an order where no edit shifts the
/// target of a later one. A path that no longer resolves, or that names the
/// root, replaces nothing and `f` is not asked about it.
pub fn replace_paths<F: Fn(&JsonValue) -> JsonValue>(paths: Vec<IdxPath>, out: &mut JsonValue, f: F)
    requires
        forall|a: &JsonValue| call_requires(f, (a,)),
    ensures
        exists|ys: Seq<JsonModel>|
            {
                let sv = sort_edits(path_views(paths@));
                &&& #[trigger] ys.len() == sv.len()
                &&& final(out)@ == chain_replace(old(out)@, sv, ys)
                &&& forall|j: int|
                    0 <= j < sv.len() && sv[j].len() > 0 && crate::value::model_resolve(
                        chain_replace(old(out)@, sv.take(j), ys.take(j)),
                        sv[j],
                    ) is Some ==> exists|a: JsonValue, yv: JsonValue|
                        {
                            &&& Some(a@) == crate::value::model_resolve(
                                chain_replace(old(out)@, sv.take(j), ys.take(j)),
                                sv[j],
                            )
                            &&& yv@ == ys[j]
                            &&& call_ensures(f, (&a,), yv)
                        }
            },
{
    let sorted = sort_paths(&paths);
    let ghost sv = path_views(sorted@);
    let ghost mut ys: Seq<JsonModel> = Seq::empty();
    let n = sorted.len();
    let mut i: usize = 0;
    proof {
        assert(sv.take(0) =~= Seq::<Seq<IdxModel>>::empty());
        assert(ys.take(0) =~= ys);
    }
    while i < n
        invariant
            i <= n,
            n == sorted@.len(),
            sv == path_views(sorted@),
            forall|a: &JsonValue| call_requires(f, (a,)),
            ys.len() == i as int,
            out@ == chain_replace(old(out)@, sv.take(i as int), ys),
            forall|j: int|
                0 <= j < i as int && sv[j].len() > 0 && crate::value::model_resolve(
                    chain_replace(old(out)@, sv.take(j), ys.take(j)),
                    sv[j],
                ) is Some ==> exists|a: JsonValue, yv: JsonValue|
                    {
                        &&& Some(a@) == crate::value::model_resolve(
                            chain_replace(old(out)@, sv.take(j), ys.take(j)),
                            sv[j],
                        )
                        &&& yv@ == ys[j]
                        &&& call_ensures(f, (&a,), yv)
                    },
        decreases n - i,
    {
        let p = &sorted[i];
        let ghost prev_ys = ys;
        proof {
            assert(sv.take(i as int + 1) =~= sv.take(i as int) + seq![sv[i as int]]);
        }
        proof {
            assert(sv[i as int] == p@);
        }
        if !p.is_empty() {
            let node = match p.resolve_on(&*out) {
                Ok(node) => Some(node),
                Err(_) => None,
            };
            match node {
                Some(node) => {
                    proof {
                        crate::idx::lemma_resolve_full_ok(out@, p@);
                    }
                    let y = f(node);
                    proof {
                        ys = ys.push(y@);
                        assert(ys =~= prev_ys + seq![y@]);
                        lemma_set_at_resolves(out@, p@, y@);
                        lemma_chain_replace_snoc(
                            old(out)@,
                            sv.take(i as int),
                            prev_ys,
                            sv[i as int],
                            y@,
                        );
                    }
                    let raw = p.raw_path();
                    proof {
                        assert(idx_views(raw@) =~= p@);
                        assert(idx_views(raw@).skip(0) =~= p@);
                    }
                    set_sub(out, raw, 0, y);
                    proof {
                        assert(ys.take(i as int) =~= prev_ys);
                        assert(forall|j: int|
                            0 <= j < i as int ==> ys.take(j) =~= prev_ys.take(j));
                    }
                },
                None => {
                    proof {
                        crate::idx::lemma_resolve_full_ok(out@, p@);
                        ys = ys.push(JsonModel::Null);
                        assert(ys =~= prev_ys + seq![JsonModel::Null]);
                        lemma_set_at_resolves(out@, p@, JsonModel::Null);
                        lemma_chain_replace_snoc(
                            old(out)@,
                            sv.take(i as int),
                            prev_ys,
                            sv[i as int],
                            JsonModel::Null,
                        );
                        assert(ys.take(i as int) =~= prev_ys);
                        assert(forall|j: int|
                            0 <= j < i as int ==> ys.take(j) =~= prev_ys.take(j));
                    }
                },
            }
        } else {
            proof {
                ys = ys.push(JsonModel::Null);
                assert(ys =~= prev_ys + seq![JsonModel::Null]);
                lemma_chain_replace_snoc(
                    old(out)@,
                    sv.take(i as int),
                    prev_ys,
                    sv[i as int],
                    JsonModel::Null,
                );
                assert(ys.take(i as int) =~= prev_ys);
                assert(forall|j: int| 0 <= j < i as int ==> ys.take(j) =~= prev_ys.take(j));
            }
        }
        i += 1;
    }
    proof {
        assert(sv.take(n as int) =~= sv);
    }
}

/// The document after a batch of replace-or-delete edits, applied in order;
/// step `i` writes `ys[i]` at its path when that is `Some`, and deletes the
/// node when it is `None`. An edit whose path does not resolve leaves the
/// document as it stands.
pub open spec fn chain_try_replace(
    m: JsonModel,
    ps: Seq<Seq<IdxModel>>,
    ys: Seq<Option<JsonModel>>,
) -> JsonModel
    decreases ps.len(),
{
    if ps.len() == 0 {
        m
    } else {
        let m1 = match ys[0] {
            Some(y) => match set_at(m, ps[0], y) {
                Some(x) => x,
                None => m,
            },
            None => match delete_at(m, ps[0]) {
                Some(x) => x,
                None => m,
            },
        };
        chain_try_replace(m1, ps.drop_first(), ys.drop_first())
    }
}

/// Appending one more replace-or-delete edit to a batch applies it on the
/// batch's result.
pub proof fn lemma_chain_try_replace_snoc(
    m: JsonModel,
    ps: Seq<Seq<IdxModel>>,
    ys: Seq<Option<JsonModel>>,
    x: Seq<IdxModel>,
    y: Option<JsonModel>,
)
    requires
        ps.len() == ys.len(),
    ensures
        chain_try_replace(m, ps + seq![x], ys + seq![y]) == ({
            let m1 = chain_try_replace(m, ps, ys);
            match y {
                Some(yv) => match set_at(m1, x, yv) {
                    Some(z) => z,
                    None => m1,
                },
                None => match delete_at(m1, x) {
                    Some(z) => z,
                    None => m1,
                },
            }
        }),
    decreases ps.len(),
{
    if ps.len() == 0 {
        assert((ps + seq![x]).drop_first() =~= Seq::<Seq<IdxModel>>::empty());
        assert((ys + seq![y]).drop_first() =~= Seq::<Option<JsonModel>>::empty());
        assert((ps + seq![x])[0] == x);
        assert((ys + seq![y])[0] == y);
        let m1 = match y {
            Some(yv) => match set_at(m, x, yv) {
                Some(z) => z,
                None => m,
            },
            None => match delete_at(m, x) {
                Some(z) => z,
                None => m,
            },
        };
        assert(chain_try_replace(
            m1,
            Seq::<Seq<IdxModel>>::empty(),
            Seq::<Option<JsonModel>>::empty(),
        ) == m1);
        assert(chain_try_replace(m, ps, ys) == m);
    } else {
        let m1 = match ys[0] {
            Some(yv) => match set_at(m, ps[0], yv) {
                Some(z) => z,
                None => m,
            },
            None => match delete_at(m, ps[0]) {
                Some(z) => z,
                None => m,
            },
        };
        assert((ps + seq![x])[0] == ps[0]);
        assert((ys + seq![y])[0] == ys[0]);
        assert((ps + seq![x]).drop_first() =~= ps.drop_first() + seq![x]);
        assert((ys + seq![y]).drop_first() =~= ys.drop_first() + seq![y]);
        lemma_chain_try_replace_snoc(m1, ps.drop_first(), ys.drop_first(), x, y);
    }
}

/// Replace or delete the nodes the given paths name: where `f` returns
/// `Some` the node is replaced with that value, where it returns `None` the
/// node is deleted. Edits apply in an order where none shifts the target of
/// a later one. A path that no longer resolves, or that names the root,
/// changes nothing and `f` is not asked about it.
pub fn try_replace_paths<F: Fn(&JsonValue) -> Option<JsonValue>>(
    paths: Vec<IdxPath>,
    out: &mut JsonValue,
    f: F,
)
    requires
        forall|a: &JsonValue| call_requires(f, (a,)),
    ensures
        exists|ys: Seq<Option<JsonModel>>|
            {
                let sv = sort_edits(path_views(paths@));
                &&& #[trigger] ys.len() == sv.len()
                &&& final(out)@ == chain_try_replace(old(out)@, sv, ys)
                &&& forall|j: int|
                    0 <= j < sv.len() && sv[j].len() > 0 && crate::value::model_resolve(
                        chain_try_replace(old(out)@, sv.take(j), ys.take(j)),
                        sv[j],
                    ) is Some ==> exists|a: JsonValue, yv: Option<JsonValue>|
                        {
                            &&& Some(a@) == crate::value::model_resolve(
                                chain_try_replace(old(out)@, sv.take(j), ys.take(j)),
                                sv[j],
                            )
                            &&& (match (yv, ys[j]) {
                                (Some(v), Some(w)) => v@ == w,
                                (None, None) => true,
                                _ => false,
                            })
                            &&& call_ensures(f, (&a,), yv)
                        }
            },
{
    let sorted = sort_paths(&paths);
    let ghost sv = path_views(sorted@);
    let ghost mut ys: Seq<Option<JsonModel>> = Seq::empty();
    let n = sorted.len();
    let mut i: usize = 0;
    proof {
        assert(sv.take(0) =~= Seq::<Seq<IdxModel>>::empty());
    }
    while i < n
        invariant
            i <= n,
            n == sorted@.len(),
            sv == path_views(sorted@),
            forall|a: &JsonValue| call_requires(f, (a,)),
            ys.len() == i as int,
            out@ == chain_try_replace(old(out)@, sv.take(i as int), ys),
            forall|j: int|
                0 <= j < i as int && sv[j].len() > 0 && crate::value::model_resolve(
                    chain_try_replace(old(out)@, sv.take(j), ys.take(j)),
                    sv[j],
                ) is Some ==> exists|a: JsonValue, yv: Option<JsonValue>|
                    {
                        &&& Some(a@) == crate::value::model_resolve(
                            chain_try_replace(old(out)@, sv.take(j), ys.take(j)),
                            sv[j],
                        )
                        &&& (match (yv, ys[j]) {
                            (Some(v), Some(w)) => v@ == w,
                            (None, None) => true,
                            _ => false,
                        })
                        &&& call_ensures(f, (&a,), yv)
                    },
        decreases n - i,
    {
        let p = &sorted[i];
        let ghost prev_ys = ys;
        proof {
            assert(sv.take(i as int + 1) =~= sv.take(i as int) + seq![sv[i as int]]);
            assert(sv[i as int] == p@);
        }
        if !p.is_empty() {
            let node = match p.resolve_on(&*out) {
                Ok(node) => Some(node),
                Err(_) => None,
            };
            match node {
                Some(node) => {
                    proof {
                        crate::idx::lemma_resolve_full_ok(out@, p@);
                    }
                    let y = f(node);
                    let raw = p.raw_path();
                    proof {
                        assert(idx_views(raw@) =~= p@);
                        assert(idx_views(raw@).skip(0) =~= p@);
                    }
                    match y {
                        Some(newv) => {
                            proof {
                                ys = ys.push(Some(newv@));
                                assert(ys =~= prev_ys + seq![Some(newv@)]);
                                lemma_set_at_resolves(out@, p@, newv@);
                                lemma_chain_try_replace_snoc(
                                    old(out)@,
                                    sv.take(i as int),
                                    prev_ys,
                                    sv[i as int],
                                    Some(newv@),
                                );
                            }
                            set_sub(out, raw, 0, newv);
                        },
                        None => {
                            proof {
                                ys = ys.push(None);
                                assert(ys =~= prev_ys + seq![None]);
                                lemma_delete_at_resolves(out@, p@);
                                lemma_chain_try_replace_snoc(
                                    old(out)@,
                                    sv.take(i as int),
                                    prev_ys,
                                    sv[i as int],
                                    None,
                                );
                            }
                            delete_sub(out, raw, 0);
                        },
                    }
                    proof {
                        assert(ys.take(i as int) =~= prev_ys);
                        assert(forall|j: int|
                            0 <= j < i as int ==> ys.take(j) =~= prev_ys.take(j));
                    }
                },
                None => {
                    proof {
                        crate::idx::lemma_resolve_full_ok(out@, p@);
                        ys = ys.push(Some(JsonModel::Null));
                        assert(ys =~= prev_ys + seq![Some(JsonModel::Null)]);
                        lemma_set_at_resolves(out@, p@, JsonModel::Null);
                        lemma_chain_try_replace_snoc(
                            old(out)@,
                            sv.take(i as int),
                            prev_ys,
                            sv[i as int],
                            Some(JsonModel::Null),
                        );
                        assert(ys.take(i as int) =~= prev_ys);
                        assert(forall|j: int|
                            0 <= j < i as int ==> ys.take(j) =~= prev_ys.take(j));
                    }
                },
            }
        } else {
            proof {
                ys = ys.push(Some(JsonModel::Null));
                assert(ys =~= prev_ys + seq![Some(JsonModel::Null)]);
                lemma_chain_try_replace_snoc(
                    old(out)@,
                    sv.take(i as int),
                    prev_ys,
                    sv[i as int],
                    Some(JsonModel::Null),
                );
                assert(ys.take(i as int) =~= prev_ys);
                assert(forall|j: int| 0 <= j < i as int ==> ys.take(j) =~= prev_ys.take(j));
            }
        }
        i += 1;
    }
    proof {
        assert(sv.take(n as int) =~= sv);
    }
}

// General properties of the edit order

/// Deleting an empty batch of matches leaves the document untouched.
pub proof fn lemma_delete_empty_batch(m: JsonModel)
    ensures
        sort_edits(Seq::<Seq<IdxModel>>::empty()) == Seq::<Seq<IdxModel>>::empty(),
        chain_delete(m, sort_edits(Seq::<Seq<IdxModel>>::empty())) == m,
{
}

/// Replacing an array element keeps the value an array of the same length.
pub proof fn lemma_set_keeps_array_shape(m: JsonModel, i: int, v: JsonModel)
    ensures
        model_set(m, IdxModel::Arr(i), v) matches Some(m2) ==> m2 is Arr && m2->Arr_0.len()
            == m->Arr_0.len(),
{
}

/// Any two edits are ordered at least one way.
pub proof fn lemma_edit_precedes_total(a: Seq<IdxModel>, b: Seq<IdxModel>)
    ensures
        edit_precedes(a, b) || edit_precedes(b, a),
{
}

/// The edit order is transitive.
pub proof fn lemma_edit_precedes_trans(a: Seq<IdxModel>, b: Seq<IdxModel>, c: Seq<IdxModel>)
    requires
        edit_precedes(a, b),
        edit_precedes(b, c),
    ensures
        edit_precedes(a, c),
{
}

/// The position at which an edit is inserted into a sorted batch: after
/// every edit that may stand before it.
pub open spec fn spec_insert_pos(x: Seq<IdxModel>, s: Seq<Seq<IdxModel>>) -> int
    decreases s.len(),
{
    if s.len() == 0 {
        0
    } else if edit_precedes(s[0], x) {
        1 + spec_insert_pos(x, s.drop_first())
    } else {
        0
    }
}

/// Inserting lands exactly at the insertion position, which sits after the
/// edits that may stand before `x` and before the first that may not.
pub proof fn lemma_insert_pos(x: Seq<IdxModel>, s: Seq<Seq<IdxModel>>)
    ensures
        0 <= spec_insert_pos(x, s) <= s.len(),
        forall|k: int| 0 <= k < spec_insert_pos(x, s) ==> edit_precedes(s[k], x),
        spec_insert_pos(x, s) < s.len() ==> !edit_precedes(s[spec_insert_pos(x, s)], x),
        insert_edit(x, s) == s.insert(spec_insert_pos(x, s), x),
    decreases s.len(),
{
    if s.len() == 0 {
        lemma_insert_edit_at(x, s, 0);
    } else if edit_precedes(s[0], x) {
        lemma_insert_pos(x, s.drop_first());
        assert forall|k: int| 0 <= k < spec_insert_pos(x, s) implies edit_precedes(s[k], x) by {
            if k > 0 {
                assert(s.drop_first()[k - 1] == s[k]);
            }
        }
        if spec_insert_pos(x, s) < s.len() {
            assert(s.drop_first()[spec_insert_pos(x, s.drop_first())] == s[spec_insert_pos(x, s)]);
        }
        lemma_insert_edit_at(x, s, spec_insert_pos(x, s));
    } else {
        lemma_insert_edit_at(x, s, 0);
    }
}

/// Inserting an edit into a sorted batch keeps every pair ordered.
pub proof fn lemma_insert_edit_sorted(x: Seq<IdxModel>, s: Seq<Seq<IdxModel>>)
    requires
        forall|i: int, j: int| 0 <= i < j < s.len() ==> edit_precedes(s[i], s[j]),
    ensures
        forall|i: int, j: int|
            0 <= i < j < insert_edit(x, s).len() ==> edit_precedes(
                insert_edit(x, s)[i],
                insert_edit(x, s)[j],
            ),
{
    lemma_insert_pos(x, s);
    let pos = spec_insert_pos(x, s);
    let r = s.insert(pos, x);
    assert(insert_edit(x, s) == r);
    // x may stand before everything at or after the insertion position
    assert forall|k: int| pos <= k < s.len() implies edit_precedes(x, s[k]) by {
        lemma_edit_precedes_total(s[pos], x);
        assert(edit_precedes(x, s[pos]));
        if k > pos {
            lemma_edit_precedes_trans(x, s[pos], s[k]);
        }
    }
    assert forall|i: int, j: int| 0 <= i < j < r.len() implies edit_precedes(r[i], r[j]) by {
        if i < pos {
            assert(r[i] == s[i]);
        } else if i == pos {
            assert(r[i] == x);
        } else {
            assert(r[i] == s[i - 1]);
        }
        if j < pos {
            assert(r[j] == s[j]);
        } else if j == pos {
            assert(r[j] == x);
        } else {
            assert(r[j] == s[j - 1]);
        }
    }
}

/// The batch order is fully sorted: every earlier edit may stand before
/// every later one, so deeper paths are edited first and, inside one array,
/// higher positions first — no deletion shifts the target of a later edit.
pub proof fn lemma_sort_edits_sorted(s: Seq<Seq<IdxModel>>)
    ensures
        forall|i: int, j: int|
            0 <= i < j < sort_edits(s).len() ==> edit_precedes(sort_edits(s)[i], sort_edits(s)[j]),
    decreases s.len(),
{
    if s.len() > 0 {
        lemma_sort_edits_sorted(s.drop_last());
        lemma_insert_edit_sorted(s.last(), sort_edits(s.drop_last()));
    }
}

/// Inserting an edit anywhere adds exactly that edit to the batch's
/// contents.
proof fn lemma_insert_to_multiset(x: Seq<IdxModel>, s: Seq<Seq<IdxModel>>, j: int)
    requires
        0 <= j <= s.len(),
    ensures
        s.insert(j, x).to_multiset() == s.to_multiset().insert(x),
{
    broadcast use vstd::seq_lib::group_to_multiset_ensures;

    let si = s.insert(j, x);
    assert(si.remove(j) =~= s);
    assert(si[j] == x);
    assert(si.remove(j).to_multiset() =~= si.to_multiset().remove(x));
    assert(si.to_multiset().contains(x));
    assert(si.to_multiset() =~= s.to_multiset().insert(x));
}

/// The sorted insertion adds exactly the inserted edit.
proof fn lemma_insert_edit_permutes(x: Seq<IdxModel>, s: Seq<Seq<IdxModel>>)
    ensures
        insert_edit(x, s).to_multiset() == s.to_multiset().insert(x),
{
    lemma_insert_pos(x, s);
    lemma_insert_to_multiset(x, s, spec_insert_pos(x, s));
}

/// Sorting a batch of edits keeps exactly its edits: the order changes, the
/// contents do not.
pub proof fn lemma_sort_edits_permutes(s: Seq<Seq<IdxModel>>)
    ensures
        sort_edits(s).to_multiset() == s.to_multiset(),
    decreases s.len(),
{
    broadcast use vstd::seq_lib::group_to_multiset_ensures;

    if s.len() > 0 {
        lemma_sort_edits_permutes(s.drop_last());
        lemma_insert_edit_permutes(s.last(), sort_edits(s.drop_last()));
        assert(s =~= s.drop_last().push(s.last()));
        assert(s.drop_last().push(s.last()).to_multiset() =~= s.drop_last().to_multiset().insert(
            s.last(),
        ));
    }
}

/// Whether two documents agree on their top-level shape: the same kind of
/// node, the same number of children, and the same child keys in the same
/// order.
pub open spec fn same_top_shape(a: JsonModel, b: JsonModel) -> bool {
    &&& (a is Arr <==> b is Arr)
    &&& (a is Obj <==> b is Obj)
    &&& crate::value::child_count_of(a) == crate::value::child_count_of(b)
    &&& forall|i: int|
        0 <= i < crate::value::child_count_of(a) ==> crate::value::child_key_of(a, i)
            == crate::value::child_key_of(b, i)
}

/// A replacement below the root keeps the root's shape: the same kind of
/// node, as many children, under the same keys.
pub proof fn lemma_set_at_keeps_shape(m: JsonModel, path: Seq<IdxModel>, v: JsonModel)
    ensures
        set_at(m, path, v) matches Some(m2) ==> same_top_shape(m, m2),
{
    if path.len() == 0 {
    } else {
        let step_result: Option<JsonModel> = if path.len() == 1 {
            model_set(m, path[0], v)
        } else {
            match model_get(m, path[0]) {
                Some(c) => match set_at(c, path.drop_first(), v) {
                    Some(c2) => model_set(m, path[0], c2),
                    None => None,
                },
                None => None,
            }
        };
        assert(set_at(m, path, v) == step_result);
        match (m, path[0]) {
            (JsonModel::Obj(es), IdxModel::Key(k)) => {
                crate::value::lemma_obj_index(es, k);
                match step_result {
                    Some(m2) => {
                        assert(same_top_shape(m, m2));
                    },
                    None => {},
                }
            },
            _ => {},
        }
    }
}

/// A whole batch of replacements keeps the root's shape: `replace` maps
/// values but never adds, removes or renames anything at the top.
pub proof fn lemma_chain_replace_keeps_shape(
    m: JsonModel,
    ps: Seq<Seq<IdxModel>>,
    ys: Seq<JsonModel>,
)
    ensures
        same_top_shape(m, chain_replace(m, ps, ys)),
    decreases ps.len(),
{
    if ps.len() == 0 {
    } else {
        lemma_set_at_keeps_shape(m, ps[0], ys[0]);
        let m1 = match set_at(m, ps[0], ys[0]) {
            Some(x) => x,
            None => m,
        };
        lemma_chain_replace_keeps_shape(m1, ps.drop_first(), ys.drop_first());
    }
}

} // verus!
