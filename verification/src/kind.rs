//! The type lattice used for static reasoning about event shapes.
//!
//! A [`Kind`] describes the set of possible shapes an event field may take at
//! runtime: absent (`undefined`), null, boolean, integer, float, byte string,
//! timestamp, regular expression, array, or object. Arrays and objects carry
//! nested kinds for their statically known elements and fields, plus an
//! optional kind for elements at unknown indices or fields.

use vstd::prelude::*;

verus! {

/// Mathematical model of a [`Kind`]: the same shape with `Seq` in place of
/// `Vec` and character sequences in place of `String`.
#[verifier::ext_equal]
pub ghost struct KindModel {
    pub undefined: bool,
    pub null: bool,
    pub boolean: bool,
    pub integer: bool,
    pub float: bool,
    pub bytes: bool,
    pub timestamp: bool,
    pub regex: bool,
    pub array: Option<ArrayModel>,
    pub object: Option<ObjectModel>,
}

/// Model of the array possibility: kinds of the statically known elements by
/// position, and the kind of elements at any other index, if such elements are
/// possible at all.
#[verifier::ext_equal]
pub ghost struct ArrayModel {
    pub known: Seq<KindModel>,
    pub unknown: Option<Box<KindModel>>,
}

/// Model of the object possibility: kinds of the statically known fields, and
/// the kind of values under any other field name, if such fields are possible
/// at all.
#[verifier::ext_equal]
pub ghost struct ObjectModel {
    pub known: Seq<(Seq<char>, KindModel)>,
    pub unknown: Option<Box<KindModel>>,
}

/// A lattice value describing which shapes an event field may hold at runtime.
///
/// `undefined` means the field may be absent, which is distinct from an
/// explicit null.
#[derive(Debug, PartialEq)]
pub struct Kind {
    pub undefined: bool,
    pub null: bool,
    pub boolean: bool,
    pub integer: bool,
    pub float: bool,
    pub bytes: bool,
    pub timestamp: bool,
    pub regex: bool,
    pub array: Option<KindArray>,
    pub object: Option<KindObject>,
}

/// The array possibility of a [`Kind`]: kinds of statically known elements by
/// position, plus the kind of elements at unknown indices.
#[derive(Debug, PartialEq)]
pub struct KindArray {
    pub known: Vec<Kind>,
    pub unknown: Option<Box<Kind>>,
}

/// The object possibility of a [`Kind`]: kinds of statically known fields,
/// plus the kind of values under unknown field names.
#[derive(Debug, PartialEq)]
pub struct KindObject {
    pub known: Vec<(String, Kind)>,
    pub unknown: Option<Box<Kind>>,
}

/// The models of a sequence of kinds, element by element.
pub open spec fn kind_seq_view(s: Seq<Kind>) -> Seq<KindModel>
    decreases s,
{
    if s.len() == 0 {
        Seq::empty()
    } else {
        kind_seq_view(s.drop_last()).push(s.last()@)
    }
}

/// The models of a sequence of named kinds, element by element.
pub open spec fn kind_entries_view(s: Seq<(String, Kind)>) -> Seq<(Seq<char>, KindModel)>
    decreases s,
{
    if s.len() == 0 {
        Seq::empty()
    } else {
        kind_entries_view(s.drop_last()).push((s.last().0@, s.last().1@))
    }
}

impl View for Kind {
    type V = KindModel;

    open spec fn view(&self) -> KindModel
        decreases *self,
    {
        KindModel {
            undefined: self.undefined,
            null: self.null,
            boolean: self.boolean,
            integer: self.integer,
            float: self.float,
            bytes: self.bytes,
            timestamp: self.timestamp,
            regex: self.regex,
            array: match self.array {
                Some(a) => Some(a@),
                None => None,
            },
            object: match self.object {
                Some(o) => Some(o@),
                None => None,
            },
        }
    }
}

impl View for KindArray {
    type V = ArrayModel;

    open spec fn view(&self) -> ArrayModel
        decreases *self,
    {
        ArrayModel {
            known: kind_seq_view(self.known@),
            unknown: match self.unknown {
                Some(u) => Some(Box::new((*u)@)),
                None => None,
            },
        }
    }
}

impl View for KindObject {
    type V = ObjectModel;

    open spec fn view(&self) -> ObjectModel
        decreases *self,
    {
        ObjectModel {
            known: kind_entries_view(self.known@),
            unknown: match self.unknown {
                Some(u) => Some(Box::new((*u)@)),
                None => None,
            },
        }
    }
}

/// The model of a kind sequence has the same length, and its elements are the
/// elements' models.
pub proof fn lemma_kind_seq_view(s: Seq<Kind>)
    ensures
        kind_seq_view(s).len() == s.len(),
        forall|i: int| 0 <= i < s.len() ==> #[trigger] kind_seq_view(s)[i] == s[i]@,
    decreases s,
{
    if s.len() == 0 {
        assert(kind_seq_view(s) =~= Seq::empty());
    } else {
        lemma_kind_seq_view(s.drop_last());
        assert(kind_seq_view(s) == kind_seq_view(s.drop_last()).push(s.last()@));
        assert forall|i: int| 0 <= i < s.len() implies #[trigger] kind_seq_view(s)[i] == s[i]@ by {
            if i < s.len() - 1 {
                assert(s.drop_last()[i] == s[i]);
            } else {
                assert(s[i] == s.last());
            }
        }
    }
}

/// The model of a named-kind sequence has the same length, and its elements
/// are the entries' models.
pub proof fn lemma_kind_entries_view(s: Seq<(String, Kind)>)
    ensures
        kind_entries_view(s).len() == s.len(),
        forall|i: int|
            0 <= i < s.len() ==> #[trigger] kind_entries_view(s)[i] == (s[i].0@, s[i].1@),
    decreases s,
{
    if s.len() == 0 {
        assert(kind_entries_view(s) =~= Seq::empty());
    } else {
        lemma_kind_entries_view(s.drop_last());
        assert(kind_entries_view(s) == kind_entries_view(s.drop_last()).push(
            (s.last().0@, s.last().1@),
        ));
        assert forall|i: int|
            0 <= i < s.len() implies #[trigger] kind_entries_view(s)[i] == (s[i].0@, s[i].1@) by {
            if i < s.len() - 1 {
                assert(s.drop_last()[i] == s[i]);
            } else {
                assert(s[i] == s.last());
            }
        }
    }
}

impl KindModel {
    /// The kind that admits no shape at all: no value can have it.
    pub open spec fn never() -> KindModel {
        KindModel {
            undefined: false,
            null: false,
            boolean: false,
            integer: false,
            float: false,
            bytes: false,
            timestamp: false,
            regex: false,
            array: None,
            object: None,
        }
    }

    /// Whether this kind admits no shape at all.
    pub open spec fn is_never(self) -> bool {
        self =~= KindModel::never()
    }
}

impl Kind {
    /// The kind that admits no shape at all.
    pub fn never() -> (r: Kind)
        ensures
            r@ == KindModel::never(),
    {
        Kind {
            undefined: false,
            null: false,
            boolean: false,
            integer: false,
            float: false,
            bytes: false,
            timestamp: false,
            regex: false,
            array: None,
            object: None,
        }
    }

    /// Whether this kind admits no shape at all.
    pub fn is_never(&self) -> (r: bool)
        ensures
            r == self@.is_never(),
    {
        !self.undefined && !self.null && !self.boolean && !self.integer && !self.float
            && !self.bytes && !self.timestamp && !self.regex && self.array.is_none()
            && self.object.is_none()
    }
}

fn clone_kind(k: &Kind) -> (r: Kind)
    ensures
        r@ == k@,
    decreases *k,
{
    let array = match &k.array {
        Some(a) => Some(clone_array(a)),
        None => None,
    };
    let object = match &k.object {
        Some(o) => Some(clone_object(o)),
        None => None,
    };
    Kind {
        undefined: k.undefined,
        null: k.null,
        boolean: k.boolean,
        integer: k.integer,
        float: k.float,
        bytes: k.bytes,
        timestamp: k.timestamp,
        regex: k.regex,
        array,
        object,
    }
}

fn clone_array(a: &KindArray) -> (r: KindArray)
    ensures
        r@ == a@,
    decreases *a,
{
    let mut known: Vec<Kind> = Vec::new();
    let mut i: usize = 0;
    while i < a.known.len()
        invariant
            i <= a.known.len(),
            known.len() == i,
            forall|j: int| 0 <= j < i ==> known@[j]@ == a.known@[j]@,
        decreases a.known.len() - i,
    {
        known.push(clone_kind(&a.known[i]));
        i += 1;
    }
    let unknown = match &a.unknown {
        Some(u) => Some(Box::new(clone_kind(u))),
        None => None,
    };
    let r = KindArray { known, unknown };
    proof {
        lemma_kind_seq_view(r.known@);
        lemma_kind_seq_view(a.known@);
        assert(r@.known =~= a@.known);
        assert(r@ =~= a@);
    }
    r
}

fn clone_object(o: &KindObject) -> (r: KindObject)
    ensures
        r@ == o@,
    decreases *o,
{
    let mut known: Vec<(String, Kind)> = Vec::new();
    let mut i: usize = 0;
    while i < o.known.len()
        invariant
            i <= o.known.len(),
            known.len() == i,
            forall|j: int| 0 <= j < i ==> known@[j].0@ == o.known@[j].0@ && known@[j].1@
                == o.known@[j].1@,
        decreases o.known.len() - i,
    {
        let entry = &o.known[i];
        known.push((entry.0.clone(), clone_kind(&entry.1)));
        i += 1;
    }
    let unknown = match &o.unknown {
        Some(u) => Some(Box::new(clone_kind(u))),
        None => None,
    };
    let r = KindObject { known, unknown };
    proof {
        lemma_kind_entries_view(r.known@);
        lemma_kind_entries_view(o.known@);
        assert(r@.known =~= o@.known);
        assert(r@ =~= o@);
    }
    r
}

impl Clone for Kind {
    /// A deep copy: the copy has the same model as the original.
    fn clone(&self) -> (r: Kind)
        ensures
            r@ == self@,
    {
        clone_kind(self)
    }
}

impl Clone for KindArray {
    /// A deep copy: the copy has the same model as the original.
    fn clone(&self) -> (r: KindArray)
        ensures
            r@ == self@,
    {
        clone_array(self)
    }
}

impl Clone for KindObject {
    /// A deep copy: the copy has the same model as the original.
    fn clone(&self) -> (r: KindObject)
        ensures
            r@ == self@,
    {
        clone_object(self)
    }
}

} // verus!

// -------------------------------------------------------------------------
// Union of two kinds.
//
// The union admits every shape that either operand admits. Known object
// fields and known array elements present in one operand but not the other
// are kept with `undefined` added, since a value of the union may follow
// either operand's shape.
// -------------------------------------------------------------------------

verus! {

/// The same kind, also allowing the field to be absent.
pub open spec fn or_undefined_model(k: KindModel) -> KindModel {
    KindModel { undefined: true, ..k }
}

/// The kind of the first entry named `key`, if any.
pub open spec fn obj_get_model(entries: Seq<(Seq<char>, KindModel)>, key: Seq<char>) -> Option<
    KindModel,
>
    decreases entries.len(),
{
    if entries.len() == 0 {
        None
    } else if entries[0].0 == key {
        Some(entries[0].1)
    } else {
        obj_get_model(entries.subrange(1, entries.len() as int), key)
    }
}

/// Union of two kinds: every shape either operand admits.
pub open spec fn union_model(a: KindModel, b: KindModel) -> KindModel
    decreases a, b,
{
    KindModel {
        undefined: a.undefined || b.undefined,
        null: a.null || b.null,
        boolean: a.boolean || b.boolean,
        integer: a.integer || b.integer,
        float: a.float || b.float,
        bytes: a.bytes || b.bytes,
        timestamp: a.timestamp || b.timestamp,
        regex: a.regex || b.regex,
        array: match (a.array, b.array) {
            (Some(x), Some(y)) => Some(union_array_model(x, y)),
            (Some(x), None) => Some(x),
            (None, Some(y)) => Some(y),
            (None, None) => None,
        },
        object: match (a.object, b.object) {
            (Some(x), Some(y)) => Some(union_object_model(x, y)),
            (Some(x), None) => Some(x),
            (None, Some(y)) => Some(y),
            (None, None) => None,
        },
    }
}

/// Union of two array possibilities: elements are unioned by position, and a
/// position known on one side only is kept with `undefined` added.
pub open spec fn union_array_model(x: ArrayModel, y: ArrayModel) -> ArrayModel
    decreases x, y,
{
    ArrayModel {
        known: union_elems_model(x.known, y.known),
        unknown: union_unknown_model(x.unknown, y.unknown),
    }
}

/// Union of two object possibilities: fields are unioned by name; a field
/// known on one side only is kept with `undefined` added, in the order of the
/// first operand followed by the second operand's remaining fields.
pub open spec fn union_object_model(x: ObjectModel, y: ObjectModel) -> ObjectModel
    decreases x, y,
{
    ObjectModel {
        known: merged_entries_model(x.known, y.known) + rest_entries_model(x.known, y.known),
        unknown: union_unknown_model(x.unknown, y.unknown),
    }
}

/// Union of two optional unknown-element kinds; a side without unknown
/// elements contributes nothing.
pub open spec fn union_unknown_model(
    x: Option<Box<KindModel>>,
    y: Option<Box<KindModel>>,
) -> Option<Box<KindModel>>
    decreases x, y,
{
    match (x, y) {
        (Some(u), Some(v)) => Some(Box::new(union_model(*u, *v))),
        (Some(u), None) => Some(u),
        (None, Some(v)) => Some(v),
        (None, None) => None,
    }
}

/// Positionwise union of two element-kind sequences, the longer side's tail
/// kept with `undefined` added.
pub open spec fn union_elems_model(xs: Seq<KindModel>, ys: Seq<KindModel>) -> Seq<KindModel>
    decreases xs, ys,
{
    if xs.len() == 0 && ys.len() == 0 {
        Seq::empty()
    } else if xs.len() == 0 {
        seq![or_undefined_model(ys[0])] + union_elems_model(xs, ys.subrange(1, ys.len() as int))
    } else if ys.len() == 0 {
        seq![or_undefined_model(xs[0])] + union_elems_model(xs.subrange(1, xs.len() as int), ys)
    } else {
        seq![union_model(xs[0], ys[0])] + union_elems_model(
            xs.subrange(1, xs.len() as int),
            ys.subrange(1, ys.len() as int),
        )
    }
}

/// The first operand's fields, each unioned with the same-named field of the
/// second operand, or kept with `undefined` added if the second has no such
/// field.
pub open spec fn merged_entries_model(
    xs: Seq<(Seq<char>, KindModel)>,
    ys: Seq<(Seq<char>, KindModel)>,
) -> Seq<(Seq<char>, KindModel)>
    decreases xs, ys,
{
    if xs.len() == 0 {
        Seq::empty()
    } else {
        merged_entries_model(xs.drop_last(), ys).push(
            (
                xs.last().0,
                match obj_get_model(ys, xs.last().0) {
                    Some(v) => union_model(xs.last().1, v),
                    None => or_undefined_model(xs.last().1),
                },
            ),
        )
    }
}

/// The second operand's fields that the first operand lacks, in order, each
/// with `undefined` added.
pub open spec fn rest_entries_model(
    xs: Seq<(Seq<char>, KindModel)>,
    ys: Seq<(Seq<char>, KindModel)>,
) -> Seq<(Seq<char>, KindModel)>
    decreases ys.len(),
{
    if ys.len() == 0 {
        Seq::empty()
    } else {
        rest_entries_model(xs, ys.drop_last()) + (match obj_get_model(xs, ys.last().0) {
            Some(_) => Seq::<(Seq<char>, KindModel)>::empty(),
            None => seq![(ys.last().0, or_undefined_model(ys.last().1))],
        })
    }
}

/// Positionwise characterization of [`union_elems_model`].
pub proof fn lemma_union_elems_model(xs: Seq<KindModel>, ys: Seq<KindModel>)
    ensures
        union_elems_model(xs, ys).len() == if xs.len() >= ys.len() {
            xs.len()
        } else {
            ys.len()
        },
        forall|i: int|
            0 <= i < union_elems_model(xs, ys).len() ==> #[trigger] union_elems_model(xs, ys)[i]
                == if i < xs.len() && i < ys.len() {
                union_model(xs[i], ys[i])
            } else if i < xs.len() {
                or_undefined_model(xs[i])
            } else {
                or_undefined_model(ys[i])
            },
    decreases xs, ys,
{
    if xs.len() == 0 && ys.len() == 0 {
    } else if xs.len() == 0 {
        lemma_union_elems_model(xs, ys.subrange(1, ys.len() as int));
    } else if ys.len() == 0 {
        lemma_union_elems_model(xs.subrange(1, xs.len() as int), ys);
    } else {
        lemma_union_elems_model(xs.subrange(1, xs.len() as int), ys.subrange(1, ys.len() as int));
    }
}

/// Entrywise characterization of [`merged_entries_model`].
pub proof fn lemma_merged_entries_model(
    xs: Seq<(Seq<char>, KindModel)>,
    ys: Seq<(Seq<char>, KindModel)>,
)
    ensures
        merged_entries_model(xs, ys).len() == xs.len(),
        forall|i: int|
            0 <= i < xs.len() ==> #[trigger] merged_entries_model(xs, ys)[i] == (
            xs[i].0,
            match obj_get_model(ys, xs[i].0) {
                Some(v) => union_model(xs[i].1, v),
                None => or_undefined_model(xs[i].1),
            },
            ),
    decreases xs,
{
    if xs.len() > 0 {
        lemma_merged_entries_model(xs.drop_last(), ys);
        assert forall|i: int|
            0 <= i < xs.len() implies #[trigger] merged_entries_model(xs, ys)[i] == (
        xs[i].0,
        match obj_get_model(ys, xs[i].0) {
            Some(v) => union_model(xs[i].1, v),
            None => or_undefined_model(xs[i].1),
        },
        ) by {
            if i < xs.len() - 1 {
                assert(xs.drop_last()[i] == xs[i]);
            } else {
                assert(xs[i] == xs.last());
            }
        }
    }
}

} // verus!

verus! {

/// Skipping entries whose name differs from `key` does not change the lookup.
pub proof fn lemma_obj_get_skip(s: Seq<(Seq<char>, KindModel)>, key: Seq<char>, i: int)
    requires
        0 <= i <= s.len(),
        forall|j: int| 0 <= j < i ==> (#[trigger] s[j]).0 != key,
    ensures
        obj_get_model(s, key) == obj_get_model(s.subrange(i, s.len() as int), key),
    decreases i,
{
    if i == 0 {
        assert(s.subrange(0, s.len() as int) =~= s);
    } else {
        let t = s.subrange(1, s.len() as int);
        assert forall|j: int| 0 <= j < i - 1 implies (#[trigger] t[j]).0 != key by {
            assert(t[j] == s[j + 1]);
        }
        lemma_obj_get_skip(t, key, i - 1);
        assert(t.subrange(i - 1, t.len() as int) =~= s.subrange(i, s.len() as int));
        assert(s[0].0 != key);
        assert(obj_get_model(s, key) == obj_get_model(t, key));
    }
}

/// Position of the first entry named `key`, if any, together with what that
/// means for the model-level lookup.
fn find_key(entries: &Vec<(String, Kind)>, key: &String) -> (r: Option<usize>)
    ensures
        match r {
            Some(i) => i < entries@.len() && entries@[i as int].0@ == key@ && obj_get_model(
                kind_entries_view(entries@),
                key@,
            ) == Some(entries@[i as int].1@) && forall|j: int|
                0 <= j < i ==> (#[trigger] entries@[j]).0@ != key@,
            None => obj_get_model(kind_entries_view(entries@), key@) is None && forall|j: int|
                0 <= j < entries@.len() ==> (#[trigger] entries@[j]).0@ != key@,
        },
{
    proof {
        lemma_kind_entries_view(entries@);
    }
    let ghost s = kind_entries_view(entries@);
    let mut i: usize = 0;
    while i < entries.len()
        invariant
            i <= entries.len(),
            s == kind_entries_view(entries@),
            s.len() == entries@.len(),
            forall|j: int| 0 <= j < entries@.len() ==> #[trigger] s[j] == (
                entries@[j].0@,
                entries@[j].1@,
            ),
            forall|j: int| 0 <= j < i ==> (#[trigger] s[j]).0 != key@,
        decreases entries@.len() - i,
    {
        if entries[i].0 == *key {
            proof {
                lemma_obj_get_skip(s, key@, i as int);
                assert(s.subrange(i as int, s.len() as int)[0] == s[i as int]);
                assert forall|j: int| 0 <= j < i implies (#[trigger] entries@[j]).0@ != key@ by {
                    assert(s[j].0 == entries@[j].0@);
                }
            }
            return Some(i);
        }
        i += 1;
    }
    proof {
        lemma_obj_get_skip(s, key@, s.len() as int);
        assert(s.subrange(s.len() as int, s.len() as int) =~= Seq::<(Seq<char>, KindModel)>::empty());
        assert forall|j: int| 0 <= j < entries@.len() implies (#[trigger] entries@[j]).0@ != key@ by {
            assert(s[j].0 == entries@[j].0@);
        }
    }
    None
}

/// The same kind, also allowing the field to be absent.
fn or_undefined_kind(k: &Kind) -> (r: Kind)
    ensures
        r@ == or_undefined_model(k@),
{
    let mut c = clone_kind(k);
    c.undefined = true;
    c
}

#[verifier::rlimit(100)]
fn union_kind(a: &Kind, b: &Kind) -> (r: Kind)
    ensures
        r@ == union_model(a@, b@),
    decreases *a, *b,
{
    let array = match (&a.array, &b.array) {
        (Some(x), Some(y)) => Some(union_array(x, y)),
        (Some(x), None) => Some(clone_array(x)),
        (None, Some(y)) => Some(clone_array(y)),
        (None, None) => None,
    };
    let object = match (&a.object, &b.object) {
        (Some(x), Some(y)) => Some(union_object(x, y)),
        (Some(x), None) => Some(clone_object(x)),
        (None, Some(y)) => Some(clone_object(y)),
        (None, None) => None,
    };
    Kind {
        undefined: a.undefined || b.undefined,
        null: a.null || b.null,
        boolean: a.boolean || b.boolean,
        integer: a.integer || b.integer,
        float: a.float || b.float,
        bytes: a.bytes || b.bytes,
        timestamp: a.timestamp || b.timestamp,
        regex: a.regex || b.regex,
        array,
        object,
    }
}

fn union_array(x: &KindArray, y: &KindArray) -> (r: KindArray)
    ensures
        r@ == union_array_model(x@, y@),
    decreases *x, *y,
{
    let n = if x.known.len() >= y.known.len() {
        x.known.len()
    } else {
        y.known.len()
    };
    let mut known: Vec<Kind> = Vec::new();
    let mut i: usize = 0;
    while i < n
        invariant
            i <= n,
            n == if x.known@.len() >= y.known@.len() {
                x.known@.len()
            } else {
                y.known@.len()
            },
            known.len() == i,
            forall|j: int|
                0 <= j < i ==> #[trigger] known@[j]@ == if j < x.known@.len() && j
                    < y.known@.len() {
                    union_model(x.known@[j]@, y.known@[j]@)
                } else if j < x.known@.len() {
                    or_undefined_model(x.known@[j]@)
                } else {
                    or_undefined_model(y.known@[j]@)
                },
        decreases n - i,
    {
        if i < x.known.len() && i < y.known.len() {
            known.push(union_kind(&x.known[i], &y.known[i]));
        } else if i < x.known.len() {
            known.push(or_undefined_kind(&x.known[i]));
        } else {
            known.push(or_undefined_kind(&y.known[i]));
        }
        i += 1;
    }
    let unknown = match (&x.unknown, &y.unknown) {
        (Some(u), Some(v)) => Some(Box::new(union_kind(u, v))),
        (Some(u), None) => Some(Box::new(clone_kind(u))),
        (None, Some(v)) => Some(Box::new(clone_kind(v))),
        (None, None) => None,
    };
    let r = KindArray { known, unknown };
    proof {
        lemma_kind_seq_view(r.known@);
        lemma_kind_seq_view(x.known@);
        lemma_kind_seq_view(y.known@);
        lemma_union_elems_model(x@.known, y@.known);
        assert(r@.known =~= union_elems_model(x@.known, y@.known));
        assert(r@ =~= union_array_model(x@, y@));
    }
    r
}

fn union_object(x: &KindObject, y: &KindObject) -> (r: KindObject)
    ensures
        r@ == union_object_model(x@, y@),
    decreases *x, *y,
{
    proof {
        lemma_kind_entries_view(x.known@);
        lemma_kind_entries_view(y.known@);
        lemma_merged_entries_model(kind_entries_view(x.known@), kind_entries_view(y.known@));
    }
    let ghost xv = kind_entries_view(x.known@);
    let ghost yv = kind_entries_view(y.known@);
    let mut known: Vec<(String, Kind)> = Vec::new();
    let mut i: usize = 0;
    while i < x.known.len()
        invariant
            i <= x.known@.len(),
            xv == kind_entries_view(x.known@),
            yv == kind_entries_view(y.known@),
            xv.len() == x.known@.len(),
            forall|j: int| 0 <= j < x.known@.len() ==> #[trigger] xv[j] == (
                x.known@[j].0@,
                x.known@[j].1@,
            ),
            known.len() == i,
            forall|j: int|
                0 <= j < i ==> #[trigger] known@[j].0@ == xv[j].0 && known@[j].1@ == (
                match obj_get_model(yv, xv[j].0) {
                    Some(v) => union_model(xv[j].1, v),
                    None => or_undefined_model(xv[j].1),
                }),
        decreases x.known@.len() - i,
    {
        let entry = &x.known[i];
        match find_key(&y.known, &entry.0) {
            Some(j) => {
                known.push((entry.0.clone(), union_kind(&entry.1, &y.known[j].1)));
            },
            None => {
                known.push((entry.0.clone(), or_undefined_kind(&entry.1)));
            },
        }
        i += 1;
    }
    proof {
        lemma_kind_entries_view(known@);
        assert(kind_entries_view(known@) =~= merged_entries_model(xv, yv));
    }
    let ghost merged = merged_entries_model(xv, yv);
    let mut k: usize = 0;
    while k < y.known.len()
        invariant
            k <= y.known@.len(),
            xv == kind_entries_view(x.known@),
            yv == kind_entries_view(y.known@),
            yv.len() == y.known@.len(),
            forall|j: int| 0 <= j < y.known@.len() ==> #[trigger] yv[j] == (
                y.known@[j].0@,
                y.known@[j].1@,
            ),
            merged == merged_entries_model(xv, yv),
            kind_entries_view(known@) =~= merged + rest_entries_model(xv, yv.subrange(0, k as int)),
        decreases y.known@.len() - k,
    {
        let ghost pre = known@;
        let entry = &y.known[k];
        match find_key(&x.known, &entry.0) {
            Some(_) => {},
            None => {
                known.push((entry.0.clone(), or_undefined_kind(&entry.1)));
                proof {
                    assert(known@.drop_last() =~= pre);
                    lemma_kind_entries_view(known@);
                    lemma_kind_entries_view(pre);
                }
            },
        }
        proof {
            let prev = yv.subrange(0, k as int);
            let cur = yv.subrange(0, k as int + 1);
            assert(cur.drop_last() =~= prev);
            assert(cur.last() == yv[k as int]);
            assert(rest_entries_model(xv, cur) == rest_entries_model(xv, prev) + (
            match obj_get_model(xv, yv[k as int].0) {
                Some(_) => Seq::<(Seq<char>, KindModel)>::empty(),
                None => seq![(yv[k as int].0, or_undefined_model(yv[k as int].1))],
            }));
            assert(kind_entries_view(known@) =~= merged + rest_entries_model(xv, cur));
        }
        k += 1;
    }
    let unknown = match (&x.unknown, &y.unknown) {
        (Some(u), Some(v)) => Some(Box::new(union_kind(u, v))),
        (Some(u), None) => Some(Box::new(clone_kind(u))),
        (None, Some(v)) => Some(Box::new(clone_kind(v))),
        (None, None) => None,
    };
    let r = KindObject { known, unknown };
    proof {
        assert(yv.subrange(0, yv.len() as int) =~= yv);
        assert(r@.known =~= merged_entries_model(xv, yv) + rest_entries_model(xv, yv));
        assert(r@ =~= union_object_model(x@, y@));
    }
    r
}

impl Kind {
    /// The union of this kind and another: every shape either admits.
    ///
    /// This is the only collision strategy the stage needs; object fields
    /// present on one side only are kept with `undefined` added.
    pub fn union(&self, other: &Kind) -> (r: Kind)
        ensures
            r@ == union_model(self@, other@),
    {
        union_kind(self, other)
    }

    /// In-place union with another kind.
    pub fn merge(&mut self, other: &Kind)
        ensures
            final(self)@ == union_model(old(self)@, other@),
    {
        let merged = union_kind(self, other);
        *self = merged;
    }
}

} // verus!

// -------------------------------------------------------------------------
// Constructors and simple queries.
// -------------------------------------------------------------------------

verus! {

impl KindModel {
    /// The kind that admits every scalar shape (and absence and null), but no
    /// array or object.
    pub open spec fn any_scalar() -> KindModel {
        KindModel {
            undefined: true,
            null: true,
            boolean: true,
            integer: true,
            float: true,
            bytes: true,
            timestamp: true,
            regex: true,
            array: None,
            object: None,
        }
    }

    /// Whether this kind admits any present shape: anything but absence.
    pub open spec fn contains_any_defined(self) -> bool {
        self.null || self.boolean || self.integer || self.float || self.bytes || self.timestamp
            || self.regex || self.array is Some || self.object is Some
    }
}

impl KindObject {
    /// An object possibility with the given named fields and no others.
    pub fn from_entries(known: Vec<(String, Kind)>) -> (r: KindObject)
        ensures
            r@ == (ObjectModel { known: kind_entries_view(known@), unknown: None }),
    {
        KindObject { known, unknown: None }
    }

    /// An object possibility without named fields whose values under any field
    /// name have the given kind.
    pub fn from_unknown(unknown: Kind) -> (r: KindObject)
        ensures
            r@ == (ObjectModel {
                known: Seq::empty(),
                unknown: Some(Box::new(unknown@)),
            }),
    {
        let r = KindObject { known: Vec::new(), unknown: Some(Box::new(unknown)) };
        proof {
            assert(kind_entries_view(r.known@) =~= Seq::<(Seq<char>, KindModel)>::empty());
        }
        r
    }
}

impl KindArray {
    /// An array possibility with the given element kinds by position and no
    /// elements beyond them.
    pub fn from_elems(known: Vec<Kind>) -> (r: KindArray)
        ensures
            r@ == (ArrayModel { known: kind_seq_view(known@), unknown: None }),
    {
        KindArray { known, unknown: None }
    }

    /// An array possibility whose elements at every index have the given kind.
    pub fn from_unknown(unknown: Kind) -> (r: KindArray)
        ensures
            r@ == (ArrayModel { known: Seq::empty(), unknown: Some(Box::new(unknown@)) }),
    {
        let r = KindArray { known: Vec::new(), unknown: Some(Box::new(unknown)) };
        proof {
            assert(kind_seq_view(r.known@) =~= Seq::<KindModel>::empty());
        }
        r
    }
}

impl Kind {
    /// The kind that admits only absence.
    pub fn undefined() -> (r: Kind)
        ensures
            r@ == (KindModel { undefined: true, ..KindModel::never() }),
    {
        let mut k = Kind::never();
        k.undefined = true;
        k
    }

    /// The kind that admits only null.
    pub fn null() -> (r: Kind)
        ensures
            r@ == (KindModel { null: true, ..KindModel::never() }),
    {
        let mut k = Kind::never();
        k.null = true;
        k
    }

    /// The kind that admits only booleans.
    pub fn boolean() -> (r: Kind)
        ensures
            r@ == (KindModel { boolean: true, ..KindModel::never() }),
    {
        let mut k = Kind::never();
        k.boolean = true;
        k
    }

    /// The kind that admits only integers.
    pub fn integer() -> (r: Kind)
        ensures
            r@ == (KindModel { integer: true, ..KindModel::never() }),
    {
        let mut k = Kind::never();
        k.integer = true;
        k
    }

    /// The kind that admits only floats.
    pub fn float() -> (r: Kind)
        ensures
            r@ == (KindModel { float: true, ..KindModel::never() }),
    {
        let mut k = Kind::never();
        k.float = true;
        k
    }

    /// The kind that admits only byte strings.
    pub fn bytes() -> (r: Kind)
        ensures
            r@ == (KindModel { bytes: true, ..KindModel::never() }),
    {
        let mut k = Kind::never();
        k.bytes = true;
        k
    }

    /// The kind that admits only timestamps.
    pub fn timestamp() -> (r: Kind)
        ensures
            r@ == (KindModel { timestamp: true, ..KindModel::never() }),
    {
        let mut k = Kind::never();
        k.timestamp = true;
        k
    }

    /// The kind that admits only regular expressions.
    pub fn regex() -> (r: Kind)
        ensures
            r@ == (KindModel { regex: true, ..KindModel::never() }),
    {
        let mut k = Kind::never();
        k.regex = true;
        k
    }

    /// The kind that admits only the given object shapes.
    pub fn object(o: KindObject) -> (r: Kind)
        ensures
            r@ == (KindModel { object: Some(o@), ..KindModel::never() }),
    {
        let mut k = Kind::never();
        k.object = Some(o);
        k
    }

    /// The kind that admits only the given array shapes.
    pub fn array(a: KindArray) -> (r: Kind)
        ensures
            r@ == (KindModel { array: Some(a@), ..KindModel::never() }),
    {
        let mut k = Kind::never();
        k.array = Some(a);
        k
    }

    /// The kind that admits every scalar shape, arrays of any such elements,
    /// and objects of any such field values.
    pub fn any() -> (r: Kind)
        ensures
            r@ == (KindModel {
                array: Some(
                    ArrayModel {
                        known: Seq::empty(),
                        unknown: Some(Box::new(KindModel::any_scalar())),
                    },
                ),
                object: Some(
                    ObjectModel {
                        known: Seq::empty(),
                        unknown: Some(Box::new(KindModel::any_scalar())),
                    },
                ),
                ..KindModel::any_scalar()
            }),
    {
        let r = Kind {
            undefined: true,
            null: true,
            boolean: true,
            integer: true,
            float: true,
            bytes: true,
            timestamp: true,
            regex: true,
            array: Some(KindArray::from_unknown(Kind::any_scalar())),
            object: Some(KindObject::from_unknown(Kind::any_scalar())),
        };
        r
    }

    /// The kind that admits every scalar shape (and absence and null), but no
    /// array or object.
    pub fn any_scalar() -> (r: Kind)
        ensures
            r@ == KindModel::any_scalar(),
    {
        Kind {
            undefined: true,
            null: true,
            boolean: true,
            integer: true,
            float: true,
            bytes: true,
            timestamp: true,
            regex: true,
            array: None,
            object: None,
        }
    }

    /// The kind that admits any object whose field values may have every
    /// scalar shape.
    pub fn any_object() -> (r: Kind)
        ensures
            r@ == (KindModel {
                object: Some(
                    ObjectModel {
                        known: Seq::empty(),
                        unknown: Some(Box::new(KindModel::any_scalar())),
                    },
                ),
                ..KindModel::never()
            }),
    {
        Kind::object(KindObject::from_unknown(Kind::any_scalar()))
    }

    /// This kind, also admitting absence.
    pub fn or_undefined(self) -> (r: Kind)
        ensures
            r@ == (KindModel { undefined: true, ..self@ }),
    {
        let mut k = self;
        k.undefined = true;
        k
    }

    /// This kind, also admitting null.
    pub fn or_null(self) -> (r: Kind)
        ensures
            r@ == (KindModel { null: true, ..self@ }),
    {
        let mut k = self;
        k.null = true;
        k
    }

    /// This kind, also admitting byte strings.
    pub fn or_bytes(self) -> (r: Kind)
        ensures
            r@ == (KindModel { bytes: true, ..self@ }),
    {
        let mut k = self;
        k.bytes = true;
        k
    }

    /// This kind, also admitting integers.
    pub fn or_integer(self) -> (r: Kind)
        ensures
            r@ == (KindModel { integer: true, ..self@ }),
    {
        let mut k = self;
        k.integer = true;
        k
    }

    /// This kind, also admitting booleans.
    pub fn or_boolean(self) -> (r: Kind)
        ensures
            r@ == (KindModel { boolean: true, ..self@ }),
    {
        let mut k = self;
        k.boolean = true;
        k
    }

    /// Whether this kind admits any present shape: anything but absence.
    pub fn contains_any_defined(&self) -> (r: bool)
        ensures
            r == self@.contains_any_defined(),
    {
        self.null || self.boolean || self.integer || self.float || self.bytes || self.timestamp
            || self.regex || self.array.is_some() || self.object.is_some()
    }
}

} // verus!

// -------------------------------------------------------------------------
// Reduction of an array possibility into one element kind, and navigation
// and insertion along field paths.
// -------------------------------------------------------------------------

verus! {

/// The union of a sequence of element kinds, starting from `never`.
pub open spec fn reduce_elems_model(s: Seq<KindModel>) -> KindModel
    decreases s,
{
    if s.len() == 0 {
        KindModel::never()
    } else {
        union_model(reduce_elems_model(s.drop_last()), s.last())
    }
}

impl ArrayModel {
    /// The union of every element kind this array may hold: the known
    /// positions and, if present, the unknown-index kind.
    pub open spec fn reduced(self) -> KindModel {
        match self.unknown {
            Some(u) => union_model(reduce_elems_model(self.known), *u),
            None => reduce_elems_model(self.known),
        }
    }
}

impl KindArray {
    /// The union of every element kind this array may hold.
    pub fn reduced_kind(&self) -> (r: Kind)
        ensures
            r@ == self@.reduced(),
    {
        proof {
            lemma_kind_seq_view(self.known@);
        }
        let ghost sv = kind_seq_view(self.known@);
        let mut acc = Kind::never();
        let mut i: usize = 0;
        proof {
            assert(sv.subrange(0, 0) =~= Seq::<KindModel>::empty());
        }
        while i < self.known.len()
            invariant
                i <= self.known@.len(),
                sv == kind_seq_view(self.known@),
                sv.len() == self.known@.len(),
                forall|j: int| 0 <= j < self.known@.len() ==> #[trigger] sv[j] == self.known@[j]@,
                acc@ == reduce_elems_model(sv.subrange(0, i as int)),
            decreases self.known@.len() - i,
        {
            let next = union_kind(&acc, &self.known[i]);
            proof {
                let pre = sv.subrange(0, i as int);
                let cur = sv.subrange(0, i as int + 1);
                assert(cur.drop_last() =~= pre);
                assert(cur.last() == sv[i as int]);
            }
            acc = next;
            i += 1;
        }
        proof {
            assert(sv.subrange(0, sv.len() as int) =~= sv);
        }
        match &self.unknown {
            Some(u) => union_kind(&acc, u),
            None => acc,
        }
    }
}

/// The views of a path's segments.
pub open spec fn path_view(p: Seq<String>) -> Seq<Seq<char>> {
    p.map_values(|s: String| s@)
}

/// The kind a value may have under the given field path: `never` where no
/// value can sit there at all, and with `undefined` added where the path runs
/// through fields known only collectively.
pub open spec fn at_path_model(k: KindModel, path: Seq<Seq<char>>) -> KindModel
    decreases path.len(),
{
    if path.len() == 0 {
        k
    } else {
        match k.object {
            Some(o) => match obj_get_model(o.known, path[0]) {
                Some(f) => at_path_model(f, path.subrange(1, path.len() as int)),
                None => match o.unknown {
                    Some(u) => at_path_model(
                        or_undefined_model(*u),
                        path.subrange(1, path.len() as int),
                    ),
                    None => KindModel::never(),
                },
            },
            None => KindModel::never(),
        }
    }
}

/// The entries with the first entry named `key` replaced by `(key, v)`, or
/// with `(key, v)` appended if no entry has that name.
pub open spec fn upsert_model(
    entries: Seq<(Seq<char>, KindModel)>,
    key: Seq<char>,
    v: KindModel,
) -> Seq<(Seq<char>, KindModel)>
    decreases entries.len(),
{
    if entries.len() == 0 {
        seq![(key, v)]
    } else if entries[0].0 == key {
        seq![(key, v)] + entries.subrange(1, entries.len() as int)
    } else {
        seq![entries[0]] + upsert_model(entries.subrange(1, entries.len() as int), key, v)
    }
}

/// The kind with `v` set under the given field path: the final segment's
/// field is replaced outright, intermediate objects are created as needed,
/// and all other possibilities are kept.
pub open spec fn set_at_path_model(k: KindModel, path: Seq<Seq<char>>, v: KindModel) -> KindModel
    decreases path.len(),
{
    if path.len() == 0 {
        v
    } else {
        let o = match k.object {
            Some(o) => o,
            None => ObjectModel { known: Seq::empty(), unknown: None },
        };
        let inner = match obj_get_model(o.known, path[0]) {
            Some(f) => f,
            None => KindModel::never(),
        };
        let newf = set_at_path_model(inner, path.subrange(1, path.len() as int), v);
        KindModel {
            object: Some(ObjectModel { known: upsert_model(o.known, path[0], newf), ..o }),
            ..k
        }
    }
}

/// Replacing the first entry named `key`, when it stands at position `j`, is
/// an update at `j`.
pub proof fn lemma_upsert_found(
    s: Seq<(Seq<char>, KindModel)>,
    key: Seq<char>,
    j: int,
    v: KindModel,
)
    requires
        0 <= j < s.len(),
        s[j].0 == key,
        forall|l: int| 0 <= l < j ==> (#[trigger] s[l]).0 != key,
    ensures
        upsert_model(s, key, v) =~= s.update(j, (key, v)),
    decreases j,
{
    if j == 0 {
        assert(upsert_model(s, key, v) =~= seq![(key, v)] + s.subrange(1, s.len() as int));
    } else {
        let t = s.subrange(1, s.len() as int);
        assert forall|l: int| 0 <= l < j - 1 implies (#[trigger] t[l]).0 != key by {
            assert(t[l] == s[l + 1]);
        }
        assert(t[j - 1] == s[j]);
        lemma_upsert_found(t, key, j - 1, v);
        assert(s[0].0 != key);
        assert(upsert_model(s, key, v) =~= seq![s[0]] + upsert_model(t, key, v));
    }
}

/// When no entry is named `key`, the new entry is appended at the end.
pub proof fn lemma_upsert_missing(s: Seq<(Seq<char>, KindModel)>, key: Seq<char>, v: KindModel)
    requires
        forall|l: int| 0 <= l < s.len() ==> (#[trigger] s[l]).0 != key,
    ensures
        upsert_model(s, key, v) =~= s.push((key, v)),
    decreases s.len(),
{
    if s.len() == 0 {
    } else {
        let t = s.subrange(1, s.len() as int);
        assert forall|l: int| 0 <= l < t.len() implies (#[trigger] t[l]).0 != key by {
            assert(t[l] == s[l + 1]);
        }
        lemma_upsert_missing(t, key, v);
        assert(s[0].0 != key);
        assert(upsert_model(s, key, v) =~= seq![s[0]] + upsert_model(t, key, v));
    }
}

impl Kind {
    /// The kind a value may have under the given field path.
    pub fn at_path(&self, path: &Vec<String>) -> (r: Kind)
        ensures
            r@ == at_path_model(self@, path_view(path@)),
    {
        proof {
            assert(path_view(path@).subrange(0, path@.len() as int) =~= path_view(path@));
        }
        kind_at_path_from(self, path, 0)
    }

    /// This kind with `v` set under the given field path; intermediate
    /// objects are created as needed.
    pub fn with_field_at_path(&self, path: &Vec<String>, v: Kind) -> (r: Kind)
        ensures
            r@ == set_at_path_model(self@, path_view(path@), v@),
    {
        proof {
            assert(path_view(path@).subrange(0, path@.len() as int) =~= path_view(path@));
        }
        kind_set_at_path_from(self, path, 0, v)
    }
}

fn kind_at_path_from(k: &Kind, path: &Vec<String>, from: usize) -> (r: Kind)
    requires
        from <= path@.len(),
    ensures
        r@ == at_path_model(k@, path_view(path@).subrange(from as int, path@.len() as int)),
    decreases path@.len() - from,
{
    let ghost pv = path_view(path@);
    let ghost rest = pv.subrange(from as int, path@.len() as int);
    if from == path.len() {
        proof {
            assert(rest =~= Seq::<Seq<char>>::empty());
        }
        clone_kind(k)
    } else {
        proof {
            assert(rest[0] == pv[from as int]);
            assert(rest.subrange(1, rest.len() as int) =~= pv.subrange(
                from as int + 1,
                path@.len() as int,
            ));
        }
        match &k.object {
            Some(o) => {
                proof {
                    lemma_kind_entries_view(o.known@);
                }
                match find_key(&o.known, &path[from]) {
                    Some(j) => kind_at_path_from(&o.known[j].1, path, from + 1),
                    None => {
                        match &o.unknown {
                            Some(u) => {
                                let f = or_undefined_kind(u);
                                kind_at_path_from(&f, path, from + 1)
                            },
                            None => Kind::never(),
                        }
                    },
                }
            },
            None => Kind::never(),
        }
    }
}

#[verifier::rlimit(100)]
fn kind_set_at_path_from(k: &Kind, path: &Vec<String>, from: usize, v: Kind) -> (r: Kind)
    requires
        from <= path@.len(),
    ensures
        r@ == set_at_path_model(k@, path_view(path@).subrange(from as int, path@.len() as int), v@),
    decreases path@.len() - from,
{
    let ghost pv = path_view(path@);
    let ghost rest = pv.subrange(from as int, path@.len() as int);
    if from == path.len() {
        proof {
            assert(rest =~= Seq::<Seq<char>>::empty());
        }
        v
    } else {
        proof {
            assert(rest[0] == pv[from as int]);
            assert(rest.subrange(1, rest.len() as int) =~= pv.subrange(
                from as int + 1,
                path@.len() as int,
            ));
        }
        let mut obj = match &k.object {
            Some(o) => clone_object(o),
            None => KindObject { known: Vec::new(), unknown: None },
        };
        proof {
            lemma_kind_entries_view(obj.known@);
            if k.object is None {
                assert(kind_entries_view(obj.known@) =~= Seq::<(Seq<char>, KindModel)>::empty());
            }
        }
        let ghost entries = obj@.known;
        match find_key(&obj.known, &path[from]) {
            Some(j) => {
                let newf = kind_set_at_path_from(&obj.known[j].1, path, from + 1, v);
                obj.known[j].1 = newf;
                proof {
                    lemma_kind_entries_view(obj.known@);
                    lemma_upsert_found(entries, pv[from as int], j as int, newf@);
                    assert(kind_entries_view(obj.known@) =~= upsert_model(
                        entries,
                        pv[from as int],
                        newf@,
                    ));
                }
            },
            None => {
                let never = Kind::never();
                let newf = kind_set_at_path_from(&never, path, from + 1, v);
                let ghost pre = obj.known@;
                obj.known.push((path[from].clone(), newf));
                proof {
                    assert(obj.known@.drop_last() =~= pre);
                    lemma_kind_entries_view(obj.known@);
                    lemma_kind_entries_view(pre);
                    lemma_upsert_missing(entries, pv[from as int], newf@);
                    assert(kind_entries_view(obj.known@) =~= upsert_model(
                        entries,
                        pv[from as int],
                        newf@,
                    ));
                }
            },
        }
        let r = Kind {
            undefined: k.undefined,
            null: k.null,
            boolean: k.boolean,
            integer: k.integer,
            float: k.float,
            bytes: k.bytes,
            timestamp: k.timestamp,
            regex: k.regex,
            array: match &k.array {
                Some(a) => Some(clone_array(a)),
                None => None,
            },
            object: Some(obj),
        };
        proof {
            assert(r@ =~= set_at_path_model(k@, rest, v@));
        }
        r
    }
}

} // verus!
