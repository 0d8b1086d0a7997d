//! The document model: an owned JSON tree of nulls, booleans, integers,
//! strings, arrays and objects, together with its mathematical abstraction.

use vstd::prelude::*;

use crate::idx::{Idx, IdxModel};

verus! {

broadcast use {vstd::std_specs::vec::group_vec_axioms, vstd::seq::group_seq_axioms};

/// Mathematical abstraction of a JSON document: the view of [`JsonValue`].
///
/// Objects are sequences of key/value entries; lookups take the first entry
/// with a matching key, so documents with duplicate keys still have a
/// well-defined meaning.
pub enum JsonModel {
    /// `null`
    Null,
    /// `true` or `false`
    Bool(bool),
    /// An integer number
    Int(i64),
    /// A string
    Str(Seq<char>),
    /// An array of values
    Arr(Seq<JsonModel>),
    /// An object: key/value entries in order
    Obj(Seq<(Seq<char>, JsonModel)>),
}

/// An owned JSON document.
///
/// Arrays keep their element order and objects keep their entry order; an
/// object lookup returns the first entry with a matching key.
#[derive(Debug)]
pub enum JsonValue {
    /// `null`
    Null,
    /// `true` or `false`
    Bool(bool),
    /// An integer number
    Int(i64),
    /// A string
    Str(String),
    /// An array of values
    Array(Vec<JsonValue>),
    /// An object: key/value entries in order
    Object(Vec<JsonEntry>),
}

/// One key/value entry of a JSON object.
#[derive(Debug)]
pub struct JsonEntry {
    /// The member name
    pub key: String,
    /// The member value
    pub value: JsonValue,
}

/// The model of a document value.
pub open spec fn jv_model(v: JsonValue) -> JsonModel
    decreases v,
{
    match v {
        JsonValue::Null => JsonModel::Null,
        JsonValue::Bool(b) => JsonModel::Bool(b),
        JsonValue::Int(i) => JsonModel::Int(i),
        JsonValue::Str(s) => JsonModel::Str(s@),
        JsonValue::Array(vs) => JsonModel::Arr(arr_view(vs@)),
        JsonValue::Object(ms) => JsonModel::Obj(entries_view(ms@)),
    }
}

/// The models of a sequence of array elements.
pub open spec fn arr_view(vs: Seq<JsonValue>) -> Seq<JsonModel>
    decreases vs,
{
    Seq::new(vs.len(), |i: int| if 0 <= i < vs.len() {
        jv_model(vs[i])
    } else {
        JsonModel::Null
    })
}

/// The models of a sequence of object entries.
pub open spec fn entries_view(ms: Seq<JsonEntry>) -> Seq<(Seq<char>, JsonModel)>
    decreases ms,
{
    Seq::new(ms.len(), |i: int| if 0 <= i < ms.len() {
        (ms[i].key@, jv_model(ms[i].value))
    } else {
        (Seq::empty(), JsonModel::Null)
    })
}

impl View for JsonValue {
    type V = JsonModel;

    open spec fn view(&self) -> JsonModel {
        jv_model(*self)
    }
}

/// Position of the first entry of `m` whose key is `k`, or `None`.
pub(crate) fn key_position(m: &Vec<JsonEntry>, k: &String) -> (r: Option<usize>)
    ensures
        ({
            let es = entries_view(m@);
            match r {
                Some(p) => p as int == obj_index(es, k@) && (p as int) < es.len()
                    && es[p as int].0 == k@,
                None => obj_index(es, k@) == es.len(),
            }
        }),
{
    let ghost es = entries_view(m@);
    proof {
        lemma_obj_index(es, k@);
    }
    let n = m.len();
    let mut i: usize = 0;
    while i < n
        invariant
            i <= n,
            n == m@.len(),
            es == entries_view(m@),
            es.len() == n as int,
            0 <= obj_index(es, k@) <= es.len(),
            obj_index(es, k@) < es.len() ==> es[obj_index(es, k@)].0 == k@,
            forall|j: int| 0 <= j < obj_index(es, k@) ==> es[j].0 != k@,
            forall|j: int| 0 <= j < i as int ==> es[j].0 != k@,
        decreases n - i,
    {
        if m[i].key == *k {
            proof {
                assert(es[i as int].0 == k@);
                assert(obj_index(es, k@) == i as int);
            }
            return Some(i);
        }
        i += 1;
    }
    proof {
        assert(obj_index(es, k@) == es.len());
    }
    None
}

/// Position of the first entry of `es` whose key is `k`; `es.len()` when no
/// entry matches.
pub open spec fn obj_index(es: Seq<(Seq<char>, JsonModel)>, k: Seq<char>) -> int
    decreases es.len(),
{
    if es.len() == 0 {
        0
    } else if es[0].0 == k {
        0
    } else {
        1 + obj_index(es.drop_first(), k)
    }
}

/// `obj_index` always lands in `0 .. es.len()` inclusive, points at the first
/// matching entry when one exists, and past the end when none does.
pub proof fn lemma_obj_index(es: Seq<(Seq<char>, JsonModel)>, k: Seq<char>)
    ensures
        0 <= obj_index(es, k) <= es.len(),
        obj_index(es, k) < es.len() ==> es[obj_index(es, k)].0 == k,
        forall|j: int| 0 <= j < obj_index(es, k) ==> es[j].0 != k,
    decreases es.len(),
{
    if es.len() != 0 && es[0].0 != k {
        lemma_obj_index(es.drop_first(), k);
        assert forall|j: int| 0 <= j < obj_index(es, k) implies es[j].0 != k by {
            if j > 0 {
                assert(es.drop_first()[j - 1] == es[j]);
            }
        }
    }
}

/// The value of one step into a document: an element of an array, or the
/// first entry with the given key in an object.
pub open spec fn model_get(m: JsonModel, idx: IdxModel) -> Option<JsonModel> {
    match (m, idx) {
        (JsonModel::Arr(s), IdxModel::Arr(i)) => if 0 <= i < s.len() {
            Some(s[i])
        } else {
            None
        },
        (JsonModel::Obj(es), IdxModel::Key(k)) => if obj_index(es, k) < es.len() {
            Some(es[obj_index(es, k)].1)
        } else {
            None
        },
        _ => None,
    }
}

/// The node a chain of indices names, walking from `m` down the chain.
pub open spec fn model_resolve(m: JsonModel, path: Seq<IdxModel>) -> Option<JsonModel>
    decreases path.len(),
{
    if path.len() == 0 {
        Some(m)
    } else {
        match model_get(m, path[0]) {
            Some(c) => model_resolve(c, path.drop_first()),
            None => None,
        }
    }
}

/// The document after removing the child at `idx`, or `None` when no such
/// child exists.
pub open spec fn model_remove(m: JsonModel, idx: IdxModel) -> Option<JsonModel> {
    match (m, idx) {
        (JsonModel::Arr(s), IdxModel::Arr(i)) => if 0 <= i < s.len() {
            Some(JsonModel::Arr(s.remove(i)))
        } else {
            None
        },
        (JsonModel::Obj(es), IdxModel::Key(k)) => if obj_index(es, k) < es.len() {
            Some(JsonModel::Obj(es.remove(obj_index(es, k))))
        } else {
            None
        },
        _ => None,
    }
}

/// The document after replacing the child at `idx` with `v`, or `None` when
/// no such child exists.
pub open spec fn model_set(m: JsonModel, idx: IdxModel, v: JsonModel) -> Option<JsonModel> {
    match (m, idx) {
        (JsonModel::Arr(s), IdxModel::Arr(i)) => if 0 <= i < s.len() {
            Some(JsonModel::Arr(s.update(i, v)))
        } else {
            None
        },
        (JsonModel::Obj(es), IdxModel::Key(k)) => if obj_index(es, k) < es.len() {
            Some(JsonModel::Obj(es.update(obj_index(es, k), (k, v))))
        } else {
            None
        },
        _ => None,
    }
}

impl Clone for JsonEntry {
    /// Cloning keeps the key and the value.
    fn clone(&self) -> (r: Self)
        ensures
            r.key@ == self.key@,
            r.value@ == self.value@,
        decreases self,
    {
        JsonEntry { key: self.key.clone(), value: self.value.clone() }
    }
}

impl Clone for JsonValue {
    /// Cloning keeps the document.
    #[verifier::loop_isolation(false)]
    fn clone(&self) -> (r: Self)
        ensures
            r@ == self@,
        decreases self,
    {
        match self {
            JsonValue::Null => JsonValue::Null,
            JsonValue::Bool(b) => JsonValue::Bool(*b),
            JsonValue::Int(i) => JsonValue::Int(*i),
            JsonValue::Str(s) => JsonValue::Str(s.clone()),
            JsonValue::Array(v) => {
                let mut out: Vec<JsonValue> = Vec::new();
                let n = v.len();
                let mut i: usize = 0;
                while i < n
                    invariant
                        i <= n,
                        n == v@.len(),
                        out@.len() == i as int,
                        forall|j: int| 0 <= j < i as int ==> out@[j]@ == v@[j]@,
                    decreases n - i,
                {
                    out.push(v[i].clone());
                    i += 1;
                }
                let r = JsonValue::Array(out);
                proof {
                    assert(r@->Arr_0 =~= self@->Arr_0);
                }
                r
            },
            JsonValue::Object(m) => {
                let mut out: Vec<JsonEntry> = Vec::new();
                let n = m.len();
                let mut i: usize = 0;
                while i < n
                    invariant
                        i <= n,
                        n == m@.len(),
                        out@.len() == i as int,
                        forall|j: int| 0 <= j < i as int ==> out@[j].key@ == m@[j].key@
                            && out@[j].value@ == m@[j].value@,
                    decreases n - i,
                {
                    out.push(m[i].clone());
                    i += 1;
                }
                let r = JsonValue::Object(out);
                proof {
                    assert(r@->Obj_0 =~= self@->Obj_0);
                }
                r
            },
        }
    }
}

impl JsonValue {
    /// Whether this value is `null`.
    pub fn is_null(&self) -> (r: bool)
        ensures
            r == self@ is Null,
    {
        matches!(self, JsonValue::Null)
    }

    /// Whether this value is a boolean.
    pub fn is_bool(&self) -> (r: bool)
        ensures
            r == self@ is Bool,
    {
        matches!(self, JsonValue::Bool(_))
    }

    /// Whether this value is an integer number.
    pub fn is_int(&self) -> (r: bool)
        ensures
            r == self@ is Int,
    {
        matches!(self, JsonValue::Int(_))
    }

    /// Whether this value is a string.
    pub fn is_string(&self) -> (r: bool)
        ensures
            r == self@ is Str,
    {
        matches!(self, JsonValue::Str(_))
    }

    /// Whether this value is an array.
    pub fn is_array(&self) -> (r: bool)
        ensures
            r == self@ is Arr,
    {
        matches!(self, JsonValue::Array(_))
    }

    /// Whether this value is an object.
    pub fn is_object(&self) -> (r: bool)
        ensures
            r == self@ is Obj,
    {
        matches!(self, JsonValue::Object(_))
    }

    /// This value as a boolean, or `None`.
    pub fn as_bool(&self) -> (r: Option<bool>)
        ensures
            match r {
                Some(b) => self@ == JsonModel::Bool(b),
                None => !(self@ is Bool),
            },
    {
        match self {
            JsonValue::Bool(b) => Some(*b),
            _ => None,
        }
    }

    /// This value as an integer, or `None`.
    pub fn as_i64(&self) -> (r: Option<i64>)
        ensures
            match r {
                Some(i) => self@ == JsonModel::Int(i),
                None => !(self@ is Int),
            },
    {
        match self {
            JsonValue::Int(i) => Some(*i),
            _ => None,
        }
    }

    /// This value as a string slice, or `None`.
    pub fn as_str(&self) -> (r: Option<&str>)
        ensures
            match r {
                Some(s) => self@ == JsonModel::Str(s@),
                None => !(self@ is Str),
            },
    {
        match self {
            JsonValue::Str(s) => Some(s.as_str()),
            _ => None,
        }
    }

    /// This value's array elements, or `None`.
    pub fn as_array(&self) -> (r: Option<&Vec<JsonValue>>)
        ensures
            match r {
                Some(v) => self@ is Arr && v@.len() == self@->Arr_0.len() && forall|i: int|
                    0 <= i < v@.len() ==> v@[i]@ == self@->Arr_0[i],
                None => !(self@ is Arr),
            },
    {
        match self {
            JsonValue::Array(v) => Some(v),
            _ => None,
        }
    }

    /// This value's object entries, or `None`.
    pub fn as_object(&self) -> (r: Option<&Vec<JsonEntry>>)
        ensures
            match r {
                Some(m) => self@ is Obj && m@.len() == self@->Obj_0.len() && forall|i: int|
                    0 <= i < m@.len() ==> self@->Obj_0[i] == (m@[i].key@, m@[i].value@),
                None => !(self@ is Obj),
            },
    {
        match self {
            JsonValue::Object(m) => Some(m),
            _ => None,
        }
    }

    /// The number of direct children: array elements or object entries;
    /// scalars have none.
    pub fn child_count(&self) -> (r: usize)
        ensures
            r as int == child_count_of(self@),
    {
        match self {
            JsonValue::Array(v) => v.len(),
            JsonValue::Object(m) => m.len(),
            _ => 0,
        }
    }

    /// The index that reaches this value's `i`-th direct child.
    pub fn child_idx(&self, i: usize) -> (r: Idx)
        requires
            (i as int) < child_count_of(self@),
        ensures
            r@ == child_key_of(self@, i as int),
    {
        match self {
            JsonValue::Array(_) => Idx::Array(i),
            JsonValue::Object(m) => Idx::Object(m[i].key.clone()),
            _ => Idx::Array(i),
        }
    }

    /// Look one step into this value: an array element by position, or the
    /// first object entry with the given key.
    pub fn get<'a>(&'a self, idx: &Idx) -> (r: Option<&'a JsonValue>)
        ensures
            match r {
                Some(v) => model_get(self@, idx@) == Some(v@),
                None => model_get(self@, idx@) is None,
            },
    {
        match (self, idx) {
            (JsonValue::Array(v), Idx::Array(i)) => {
                if *i < v.len() {
                    Some(&v[*i])
                } else {
                    None
                }
            },
            (JsonValue::Object(m), Idx::Object(k)) => {
                match key_position(m, k) {
                    Some(p) => Some(&m[p].value),
                    None => None,
                }
            },
            _ => None,
        }
    }

    /// Remove the child at `idx`: the array element at that position, or the
    /// first object entry with that key. Returns the removed value, or `None`
    /// when no such child exists (the value is then unchanged).
    pub fn remove(&mut self, key: &Idx) -> (r: Option<JsonValue>)
        ensures
            match r {
                Some(v) => {
                    &&& model_get(old(self)@, key@) == Some(v@)
                    &&& model_remove(old(self)@, key@) == Some(final(self)@)
                },
                None => {
                    &&& model_get(old(self)@, key@) is None
                    &&& final(self)@ == old(self)@
                },
            },
    {
        let pos: Option<usize> = match (&*self, key) {
            (JsonValue::Array(v), Idx::Array(i)) => {
                if *i < v.len() {
                    Some(*i)
                } else {
                    None
                }
            },
            (JsonValue::Object(m), Idx::Object(k)) => {
                key_position(m, k)
            },
            _ => None,
        };
        match pos {
            None => None,
            Some(p) => {
                match (&mut *self, key) {
                    (JsonValue::Array(v), Idx::Array(_)) => {
                        let out = v.remove(p);
                        proof {
                            assert(final(self)@->Arr_0 =~= old(self)@->Arr_0.remove(p as int));
                        }
                        Some(out)
                    },
                    (JsonValue::Object(m), Idx::Object(_)) => {
                        let out = m.remove(p);
                        proof {
                            assert(final(self)@->Obj_0 =~= old(self)@->Obj_0.remove(p as int));
                        }
                        Some(out.value)
                    },
                    _ => None,
                }
            },
        }
    }

    /// Structural equality of two documents.
    #[verifier::loop_isolation(false)]
    pub fn deep_eq(&self, other: &JsonValue) -> (r: bool)
        ensures
            r == (self@ == other@),
        decreases self,
    {
        match (self, other) {
            (JsonValue::Null, JsonValue::Null) => true,
            (JsonValue::Bool(a), JsonValue::Bool(b)) => a == b,
            (JsonValue::Int(a), JsonValue::Int(b)) => a == b,
            (JsonValue::Str(a), JsonValue::Str(b)) => *a == *b,
            (JsonValue::Array(a), JsonValue::Array(b)) => {
                if a.len() != b.len() {
                    proof {
                        assert(self@->Arr_0.len() != other@->Arr_0.len());
                    }
                    false
                } else {
                    let n = a.len();
                    let mut i: usize = 0;
                    while i < n
                        invariant
                            i <= n,
                            n == a@.len(),
                            n == b@.len(),
                            self@ is Arr,
                            other@ is Obj ==> false,
                            other@ is Arr,
                            self@->Arr_0.len() == n as int,
                            other@->Arr_0.len() == n as int,
                            forall|j: int| 0 <= j < n as int ==> self@->Arr_0[j] == a@[j]@,
                            forall|j: int| 0 <= j < n as int ==> other@->Arr_0[j] == b@[j]@,
                            forall|j: int| 0 <= j < i as int ==> a@[j]@ == b@[j]@,
                        decreases n - i,
                    {
                        if !a[i].deep_eq(&b[i]) {
                            proof {
                                assert(self@->Arr_0[i as int] == a@[i as int]@);
                                assert(other@->Arr_0[i as int] == b@[i as int]@);
                                assert(self@ != other@);
                            }
                            return false;
                        }
                        i += 1;
                    }
                    proof {
                        assert(self@->Arr_0 =~= other@->Arr_0);
                    }
                    true
                }
            },
            (JsonValue::Object(a), JsonValue::Object(b)) => {
                if a.len() != b.len() {
                    proof {
                        assert(self@->Obj_0.len() != other@->Obj_0.len());
                    }
                    false
                } else {
                    let n = a.len();
                    let mut i: usize = 0;
                    while i < n
                        invariant
                            i <= n,
                            n == a@.len(),
                            n == b@.len(),
                            self@ is Obj,
                            other@ is Obj,
                            self@->Obj_0.len() == n as int,
                            other@->Obj_0.len() == n as int,
                            forall|j: int| 0 <= j < n as int ==> self@->Obj_0[j]
                                == (a@[j].key@, a@[j].value@),
                            forall|j: int| 0 <= j < n as int ==> other@->Obj_0[j]
                                == (b@[j].key@, b@[j].value@),
                            forall|j: int| 0 <= j < i as int ==> a@[j].key@ == b@[j].key@
                                && a@[j].value@ == b@[j].value@,
                        decreases n - i,
                    {
                        if !(a[i].key == b[i].key) {
                            proof {
                                assert(self@->Obj_0[i as int].0 == a@[i as int].key@);
                                assert(other@->Obj_0[i as int].0 == b@[i as int].key@);
                                assert(self@ != other@);
                            }
                            return false;
                        }
                        if !a[i].value.deep_eq(&b[i].value) {
                            proof {
                                assert(self@->Obj_0[i as int].1 == a@[i as int].value@);
                                assert(other@->Obj_0[i as int].1 == b@[i as int].value@);
                                assert(self@ != other@);
                            }
                            return false;
                        }
                        i += 1;
                    }
                    proof {
                        assert(self@->Obj_0 =~= other@->Obj_0);
                    }
                    true
                }
            },
            _ => {
                proof {
                    assert(!(self@ == other@));
                }
                false
            },
        }
    }
}

/// The number of direct children of a document node.
pub open spec fn child_count_of(m: JsonModel) -> int {
    match m {
        JsonModel::Arr(s) => s.len() as int,
        JsonModel::Obj(es) => es.len() as int,
        _ => 0,
    }
}

/// The index that reaches the `i`-th direct child of a document node.
pub open spec fn child_key_of(m: JsonModel, i: int) -> IdxModel {
    match m {
        JsonModel::Obj(es) => IdxModel::Key(es[i].0),
        _ => IdxModel::Arr(i),
    }
}

/// The JSON scalar standing for an index: its position for an array index,
/// its name for an object key.
pub open spec fn idx_scalar(i: IdxModel) -> JsonModel {
    match i {
        IdxModel::Arr(n) => JsonModel::Int(n as i64),
        IdxModel::Key(k) => JsonModel::Str(k),
    }
}

impl JsonValue {
    /// The JSON scalar standing for an index: its position for an array
    /// index, its name for an object key.
    pub fn from_idx(idx: Idx) -> (r: JsonValue)
        requires
            idx@ matches IdxModel::Arr(n) ==> n <= i64::MAX,
        ensures
            r@ == idx_scalar(idx@),
    {
        match idx {
            Idx::Array(i) => JsonValue::Int(i as i64),
            Idx::Object(s) => JsonValue::Str(s),
        }
    }
}

/// The value of the `i`-th direct child of a document node.
pub open spec fn child_val_of(m: JsonModel, i: int) -> JsonModel {
    match m {
        JsonModel::Arr(s) => s[i],
        JsonModel::Obj(es) => es[i].1,
        _ => JsonModel::Null,
    }
}

/// A well-formed document: every object's keys are distinct, at every
/// depth. Documents read from JSON text are always well formed.
pub open spec fn model_wf(m: JsonModel) -> bool
    decreases m,
{
    match m {
        JsonModel::Arr(s) => forall|i: int| 0 <= i < s.len() ==> model_wf(#[trigger] s[i]),
        JsonModel::Obj(es) => (forall|i: int, j: int|
            0 <= i < j < es.len() ==> (#[trigger] es[i]).0 != (#[trigger] es[j]).0) && (forall|
            i: int,
        |
            0 <= i < es.len() ==> model_wf((#[trigger] es[i]).1)),
        _ => true,
    }
}

/// In an object with distinct keys, the lookup of entry `i`'s key finds
/// entry `i` itself.
pub proof fn lemma_obj_index_of_entry(es: Seq<(Seq<char>, JsonModel)>, i: int)
    requires
        0 <= i < es.len(),
        forall|a: int, b: int| 0 <= a < b < es.len() ==> (#[trigger] es[a]).0 != (#[trigger] es[b]).0,
    ensures
        obj_index(es, es[i].0) == i,
{
    lemma_obj_index(es, es[i].0);
    let first = obj_index(es, es[i].0);
    assert(first <= i);
    if first < i {
        assert(es[first].0 != es[i].0);
        assert(first < es.len());
        assert(es[first].0 == es[i].0);
    }
}

/// One step into a well-formed document lands on a well-formed node.
pub proof fn lemma_get_wf(m: JsonModel, idx: IdxModel)
    requires
        model_wf(m),
    ensures
        model_get(m, idx) matches Some(c) ==> model_wf(c),
{
    match (m, idx) {
        (JsonModel::Obj(es), IdxModel::Key(k)) => {
            lemma_obj_index(es, k);
        },
        _ => {},
    }
}

/// Every node a chain of indices reaches in a well-formed document is well
/// formed.
pub proof fn lemma_resolve_wf(m: JsonModel, path: Seq<IdxModel>)
    requires
        model_wf(m),
    ensures
        model_resolve(m, path) matches Some(c) ==> model_wf(c),
    decreases path.len(),
{
    if path.len() > 0 {
        lemma_get_wf(m, path[0]);
        match model_get(m, path[0]) {
            Some(c) => {
                lemma_resolve_wf(c, path.drop_first());
            },
            None => {},
        }
    }
}

/// Resolving one step further resolves the prefix and then takes that step.
pub proof fn lemma_resolve_snoc(m: JsonModel, p: Seq<IdxModel>, idx: IdxModel)
    ensures
        model_resolve(m, p.push(idx)) == (match model_resolve(m, p) {
            Some(c) => model_get(c, idx),
            None => None,
        }),
    decreases p.len(),
{
    if p.len() == 0 {
        assert(p.push(idx)[0] == idx);
        assert(p.push(idx).drop_first() =~= Seq::<IdxModel>::empty());
        match model_get(m, idx) {
            Some(c) => {
                assert(model_resolve(c, Seq::<IdxModel>::empty()) == Some(c));
            },
            None => {},
        }
    } else {
        assert(p.push(idx)[0] == p[0]);
        assert(p.push(idx).drop_first() =~= p.drop_first().push(idx));
        match model_get(m, p[0]) {
            Some(c) => {
                lemma_resolve_snoc(c, p.drop_first(), idx);
            },
            None => {},
        }
    }
}

/// A path that resolves still resolves after its last step is dropped.
pub proof fn lemma_resolve_parent(m: JsonModel, p: Seq<IdxModel>)
    requires
        p.len() > 0,
        model_resolve(m, p) is Some,
    ensures
        model_resolve(m, p.drop_last()) is Some,
{
    assert(p =~= p.drop_last().push(p.last()));
    lemma_resolve_snoc(m, p.drop_last(), p.last());
}

/// The index of any direct child steps to an existing node, and in a
/// well-formed document to exactly that child's value.
pub proof fn lemma_child_key_get(m: JsonModel, i: int)
    requires
        0 <= i < child_count_of(m),
    ensures
        model_get(m, child_key_of(m, i)) is Some,
        model_wf(m) ==> model_get(m, child_key_of(m, i)) == Some(child_val_of(m, i)),
{
    match m {
        JsonModel::Obj(es) => {
            lemma_obj_index(es, es[i].0);
            if model_wf(m) {
                lemma_obj_index_of_entry(es, i);
            }
        },
        _ => {},
    }
}

} // verus!
