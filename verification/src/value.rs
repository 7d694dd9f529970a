//! The event value model: the tree of plain values an event body or its
//! metadata holds.

use vstd::prelude::*;

verus! {

/// Mathematical model of a [`Value`].
#[verifier::ext_equal]
pub ghost enum ValueModel {
    Null,
    Boolean(bool),
    Integer(i64),
    Float(u64),
    Bytes(Seq<char>),
    Timestamp(i64),
    Regex(Seq<char>),
    Array(Seq<ValueModel>),
    Object(Seq<(Seq<char>, ValueModel)>),
}

/// A value an event field may hold. A float is carried as the bit pattern of
/// an IEEE double; a timestamp as nanoseconds since the epoch; the
/// surrounding program converts both.
#[derive(Debug, PartialEq)]
pub enum Value {
    Null,
    Boolean(bool),
    Integer(i64),
    Float(u64),
    Bytes(String),
    Timestamp(i64),
    Regex(String),
    Array(Vec<Value>),
    Object(Vec<(String, Value)>),
}

/// The models of a sequence of values, element by element.
pub open spec fn value_seq_view(s: Seq<Value>) -> Seq<ValueModel>
    decreases s,
{
    if s.len() == 0 {
        Seq::empty()
    } else {
        value_seq_view(s.drop_last()).push(s.last()@)
    }
}

/// The models of a sequence of named values, element by element.
pub open spec fn value_entries_view(s: Seq<(String, Value)>) -> Seq<(Seq<char>, ValueModel)>
    decreases s,
{
    if s.len() == 0 {
        Seq::empty()
    } else {
        value_entries_view(s.drop_last()).push((s.last().0@, s.last().1@))
    }
}

impl View for Value {
    type V = ValueModel;

    open spec fn view(&self) -> ValueModel
        decreases *self,
    {
        match self {
            Value::Null => ValueModel::Null,
            Value::Boolean(b) => ValueModel::Boolean(*b),
            Value::Integer(n) => ValueModel::Integer(*n),
            Value::Float(bits) => ValueModel::Float(*bits),
            Value::Bytes(s) => ValueModel::Bytes(s@),
            Value::Timestamp(n) => ValueModel::Timestamp(*n),
            Value::Regex(s) => ValueModel::Regex(s@),
            Value::Array(elems) => ValueModel::Array(value_seq_view(elems@)),
            Value::Object(entries) => ValueModel::Object(value_entries_view(entries@)),
        }
    }
}

/// The model of a value sequence has the same length, and its elements are
/// the elements' models.
pub proof fn lemma_value_seq_view(s: Seq<Value>)
    ensures
        value_seq_view(s).len() == s.len(),
        forall|i: int| 0 <= i < s.len() ==> #[trigger] value_seq_view(s)[i] == s[i]@,
    decreases s,
{
    if s.len() == 0 {
        assert(value_seq_view(s) =~= Seq::empty());
    } else {
        lemma_value_seq_view(s.drop_last());
        assert(value_seq_view(s) == value_seq_view(s.drop_last()).push(s.last()@));
        assert forall|i: int| 0 <= i < s.len() implies #[trigger] value_seq_view(s)[i] == s[i]@ by {
            if i < s.len() - 1 {
                assert(s.drop_last()[i] == s[i]);
            } else {
                assert(s[i] == s.last());
            }
        }
    }
}

/// The model of a named-value sequence has the same length, and its elements
/// are the entries' models.
pub proof fn lemma_value_entries_view(s: Seq<(String, Value)>)
    ensures
        value_entries_view(s).len() == s.len(),
        forall|i: int|
            0 <= i < s.len() ==> #[trigger] value_entries_view(s)[i] == (s[i].0@, s[i].1@),
    decreases s,
{
    if s.len() == 0 {
        assert(value_entries_view(s) =~= Seq::empty());
    } else {
        lemma_value_entries_view(s.drop_last());
        assert(value_entries_view(s) == value_entries_view(s.drop_last()).push(
            (s.last().0@, s.last().1@),
        ));
        assert forall|i: int|
            0 <= i < s.len() implies #[trigger] value_entries_view(s)[i] == (s[i].0@, s[i].1@) by {
            if i < s.len() - 1 {
                assert(s.drop_last()[i] == s[i]);
            } else {
                assert(s[i] == s.last());
            }
        }
    }
}

fn clone_value(v: &Value) -> (r: Value)
    ensures
        r@ == v@,
    decreases *v,
{
    match v {
        Value::Null => Value::Null,
        Value::Boolean(b) => Value::Boolean(*b),
        Value::Integer(n) => Value::Integer(*n),
        Value::Float(bits) => Value::Float(*bits),
        Value::Bytes(s) => Value::Bytes(s.clone()),
        Value::Timestamp(n) => Value::Timestamp(*n),
        Value::Regex(s) => Value::Regex(s.clone()),
        Value::Array(elems) => {
            let out = clone_value_vec(elems);
            let r = Value::Array(out);
            proof {
                lemma_value_seq_view(out@);
                lemma_value_seq_view(elems@);
                assert(value_seq_view(out@) =~= value_seq_view(elems@));
            }
            r
        },
        Value::Object(entries) => {
            let out = clone_value_entries(entries);
            let r = Value::Object(out);
            proof {
                lemma_value_entries_view(out@);
                lemma_value_entries_view(entries@);
                assert(value_entries_view(out@) =~= value_entries_view(entries@));
            }
            r
        },
    }
}

fn clone_value_vec(elems: &Vec<Value>) -> (r: Vec<Value>)
    ensures
        r@.len() == elems@.len(),
        forall|j: int| 0 <= j < elems@.len() ==> r@[j]@ == elems@[j]@,
    decreases *elems,
{
    let mut out: Vec<Value> = Vec::new();
    let mut i: usize = 0;
    while i < elems.len()
        invariant
            i <= elems@.len(),
            out.len() == i,
            forall|j: int| 0 <= j < i ==> out@[j]@ == elems@[j]@,
        decreases elems@.len() - i,
    {
        out.push(clone_value(&elems[i]));
        i += 1;
    }
    out
}

fn clone_value_entries(entries: &Vec<(String, Value)>) -> (r: Vec<(String, Value)>)
    ensures
        r@.len() == entries@.len(),
        forall|j: int|
            0 <= j < entries@.len() ==> (#[trigger] r@[j]).0@ == entries@[j].0@ && r@[j].1@
                == entries@[j].1@,
    decreases *entries,
{
    let mut out: Vec<(String, Value)> = Vec::new();
    let mut i: usize = 0;
    while i < entries.len()
        invariant
            i <= entries@.len(),
            out.len() == i,
            forall|j: int|
                0 <= j < i ==> (#[trigger] out@[j]).0@ == entries@[j].0@ && out@[j].1@
                    == entries@[j].1@,
        decreases entries@.len() - i,
    {
        let entry = &entries[i];
        out.push((entry.0.clone(), clone_value(&entry.1)));
        i += 1;
    }
    out
}

impl Clone for Value {
    /// A deep copy: the copy has the same model as the original.
    fn clone(&self) -> (r: Value)
        ensures
            r@ == self@,
    {
        clone_value(self)
    }
}

/// The value of the first entry named `key`, if any.
pub open spec fn value_obj_get_model(
    entries: Seq<(Seq<char>, ValueModel)>,
    key: Seq<char>,
) -> Option<ValueModel>
    decreases entries.len(),
{
    if entries.len() == 0 {
        None
    } else if entries[0].0 == key {
        Some(entries[0].1)
    } else {
        value_obj_get_model(entries.subrange(1, entries.len() as int), key)
    }
}

/// The entries with the first entry named `key` replaced by `(key, v)`, or
/// with `(key, v)` appended if no entry has that name.
pub open spec fn value_upsert_model(
    entries: Seq<(Seq<char>, ValueModel)>,
    key: Seq<char>,
    v: ValueModel,
) -> Seq<(Seq<char>, ValueModel)>
    decreases entries.len(),
{
    if entries.len() == 0 {
        seq![(key, v)]
    } else if entries[0].0 == key {
        seq![(key, v)] + entries.subrange(1, entries.len() as int)
    } else {
        seq![entries[0]] + value_upsert_model(entries.subrange(1, entries.len() as int), key, v)
    }
}

/// The value with `x` set under the given field path: the final segment's
/// field is replaced outright, and every intermediate step that is not an
/// object is replaced by a fresh object.
pub open spec fn value_set_model(v: ValueModel, path: Seq<Seq<char>>, x: ValueModel) -> ValueModel
    decreases path.len(),
{
    if path.len() == 0 {
        x
    } else {
        let entries = match v {
            ValueModel::Object(e) => e,
            _ => Seq::<(Seq<char>, ValueModel)>::empty(),
        };
        let inner = match value_obj_get_model(entries, path[0]) {
            Some(f) => f,
            None => ValueModel::Null,
        };
        ValueModel::Object(
            value_upsert_model(
                entries,
                path[0],
                value_set_model(inner, path.subrange(1, path.len() as int), x),
            ),
        )
    }
}

/// Replacing the first entry named `key`, when it stands at position `j`, is
/// an update at `j`.
pub proof fn lemma_value_upsert_found(
    s: Seq<(Seq<char>, ValueModel)>,
    key: Seq<char>,
    j: int,
    v: ValueModel,
)
    requires
        0 <= j < s.len(),
        s[j].0 == key,
        forall|l: int| 0 <= l < j ==> (#[trigger] s[l]).0 != key,
    ensures
        value_upsert_model(s, key, v) =~= s.update(j, (key, v)),
    decreases j,
{
    if j == 0 {
        assert(value_upsert_model(s, key, v) =~= seq![(key, v)] + s.subrange(1, s.len() as int));
    } else {
        let t = s.subrange(1, s.len() as int);
        assert forall|l: int| 0 <= l < j - 1 implies (#[trigger] t[l]).0 != key by {
            assert(t[l] == s[l + 1]);
        }
        assert(t[j - 1] == s[j]);
        lemma_value_upsert_found(t, key, j - 1, v);
        assert(s[0].0 != key);
        assert(value_upsert_model(s, key, v) =~= seq![s[0]] + value_upsert_model(t, key, v));
    }
}

/// When no entry is named `key`, the new entry is appended at the end.
pub proof fn lemma_value_upsert_missing(
    s: Seq<(Seq<char>, ValueModel)>,
    key: Seq<char>,
    v: ValueModel,
)
    requires
        forall|l: int| 0 <= l < s.len() ==> (#[trigger] s[l]).0 != key,
    ensures
        value_upsert_model(s, key, v) =~= s.push((key, v)),
    decreases s.len(),
{
    if s.len() > 0 {
        let t = s.subrange(1, s.len() as int);
        assert forall|l: int| 0 <= l < t.len() implies (#[trigger] t[l]).0 != key by {
            assert(t[l] == s[l + 1]);
        }
        lemma_value_upsert_missing(t, key, v);
        assert(s[0].0 != key);
        assert(value_upsert_model(s, key, v) =~= seq![s[0]] + value_upsert_model(t, key, v));
    }
}

/// Skipping entries whose name differs from `key` does not change the lookup.
pub proof fn lemma_value_obj_get_skip(s: Seq<(Seq<char>, ValueModel)>, key: Seq<char>, i: int)
    requires
        0 <= i <= s.len(),
        forall|j: int| 0 <= j < i ==> (#[trigger] s[j]).0 != key,
    ensures
        value_obj_get_model(s, key) == value_obj_get_model(s.subrange(i, s.len() as int), key),
    decreases i,
{
    if i == 0 {
        assert(s.subrange(0, s.len() as int) =~= s);
    } else {
        let t = s.subrange(1, s.len() as int);
        assert forall|j: int| 0 <= j < i - 1 implies (#[trigger] t[j]).0 != key by {
            assert(t[j] == s[j + 1]);
        }
        lemma_value_obj_get_skip(t, key, i - 1);
        assert(t.subrange(i - 1, t.len() as int) =~= s.subrange(i, s.len() as int));
        assert(s[0].0 != key);
        assert(value_obj_get_model(s, key) == value_obj_get_model(t, key));
    }
}

/// Position of the first entry named `key`, if any, together with what that
/// means for the model-level lookup.
fn find_value_key(entries: &Vec<(String, Value)>, key: &String) -> (r: Option<usize>)
    ensures
        match r {
            Some(i) => i < entries@.len() && entries@[i as int].0@ == key@ && value_obj_get_model(
                value_entries_view(entries@),
                key@,
            ) == Some(entries@[i as int].1@) && forall|j: int|
                0 <= j < i ==> (#[trigger] entries@[j]).0@ != key@,
            None => value_obj_get_model(value_entries_view(entries@), key@) is None && forall|
                j: int,
            |
                0 <= j < entries@.len() ==> (#[trigger] entries@[j]).0@ != key@,
        },
{
    proof {
        lemma_value_entries_view(entries@);
    }
    let ghost s = value_entries_view(entries@);
    let mut i: usize = 0;
    while i < entries.len()
        invariant
            i <= entries@.len(),
            s == value_entries_view(entries@),
            s.len() == entries@.len(),
            forall|j: int| 0 <= j < entries@.len() ==> #[trigger] s[j] == (
                entries@[j].0@,
                entries@[j].1@,
            ),
            forall|j: int| 0 <= j < i ==> (#[trigger] s[j]).0 != key@,
        decreases entries@.len() - i,
    {
        if entries[i].0 == *key {
            proof {
                lemma_value_obj_get_skip(s, key@, i as int);
                assert(s.subrange(i as int, s.len() as int)[0] == s[i as int]);
                assert forall|j: int| 0 <= j < i implies (#[trigger] entries@[j]).0@ != key@ by {
                    assert(s[j].0 == entries@[j].0@);
                }
            }
            return Some(i);
        }
        i += 1;
    }
    proof {
        lemma_value_obj_get_skip(s, key@, s.len() as int);
        assert(s.subrange(s.len() as int, s.len() as int) =~= Seq::<(Seq<char>, ValueModel)>::empty());
        assert forall|j: int| 0 <= j < entries@.len() implies (#[trigger] entries@[j]).0@ != key@ by {
            assert(s[j].0 == entries@[j].0@);
        }
    }
    None
}

impl Value {
    /// This value with `x` set under the given field path; intermediate steps
    /// that are not objects are replaced by fresh objects.
    pub fn with_field_at_path(&self, path: &Vec<String>, x: Value) -> (r: Value)
        ensures
            r@ == value_set_model(self@, crate::kind::path_view(path@), x@),
    {
        proof {
            assert(crate::kind::path_view(path@).subrange(0, path@.len() as int)
                =~= crate::kind::path_view(path@));
        }
        value_set_at_path_from(self, path, 0, x)
    }
}

fn value_set_at_path_from(v: &Value, path: &Vec<String>, from: usize, x: Value) -> (r: Value)
    requires
        from <= path@.len(),
    ensures
        r@ == value_set_model(
            v@,
            crate::kind::path_view(path@).subrange(from as int, path@.len() as int),
            x@,
        ),
    decreases path@.len() - from,
{
    let ghost pv = crate::kind::path_view(path@);
    let ghost rest = pv.subrange(from as int, path@.len() as int);
    if from == path.len() {
        proof {
            assert(rest =~= Seq::<Seq<char>>::empty());
        }
        x
    } else {
        proof {
            assert(rest[0] == pv[from as int]);
            assert(rest.subrange(1, rest.len() as int) =~= pv.subrange(
                from as int + 1,
                path@.len() as int,
            ));
        }
        let mut entries: Vec<(String, Value)> = match v {
            Value::Object(e) => {
                let out = clone_value_entries(e);
                proof {
                    lemma_value_entries_view(out@);
                    lemma_value_entries_view(e@);
                    assert(value_entries_view(out@) =~= value_entries_view(e@));
                }
                out
            },
            _ => Vec::new(),
        };
        proof {
            if !(v is Object) {
                assert(value_entries_view(entries@) =~= Seq::<(Seq<char>, ValueModel)>::empty());
            }
        }
        let ghost model_entries = value_entries_view(entries@);
        match find_value_key(&entries, &path[from]) {
            Some(j) => {
                let newf = value_set_at_path_from(&entries[j].1, path, from + 1, x);
                entries[j] = (path[from].clone(), newf);
                proof {
                    lemma_value_entries_view(entries@);
                    lemma_value_upsert_found(model_entries, pv[from as int], j as int, newf@);
                    assert(value_entries_view(entries@) =~= value_upsert_model(
                        model_entries,
                        pv[from as int],
                        newf@,
                    ));
                }
            },
            None => {
                let null = Value::Null;
                let newf = value_set_at_path_from(&null, path, from + 1, x);
                let ghost pre = entries@;
                entries.push((path[from].clone(), newf));
                proof {
                    assert(entries@.drop_last() =~= pre);
                    lemma_value_entries_view(entries@);
                    lemma_value_entries_view(pre);
                    lemma_value_upsert_missing(model_entries, pv[from as int], newf@);
                    assert(value_entries_view(entries@) =~= value_upsert_model(
                        model_entries,
                        pv[from as int],
                        newf@,
                    ));
                }
            },
        }
        let r = Value::Object(entries);
        proof {
            assert(r@ =~= value_set_model(v@, rest, x@));
        }
        r
    }
}

} // verus!
