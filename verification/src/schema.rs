//! Static schema definitions: the predicted shape of events leaving a branch.
//!
//! A [`Definition`] carries a [`Kind`] for the event body, a [`Kind`] for the
//! attached metadata, the set of namespaces the branch is valid under, and a
//! mapping from semantic-meaning identifier (such as `message`) to the field
//! path it currently resolves to.

use vstd::prelude::*;

use crate::kind::{
    at_path_model, path_view, set_at_path_model, union_model, Kind, KindModel, KindObject,
};

verus! {

/// One of the two event-metadata conventions a branch may support: the legacy
/// nested-field convention, or the structured side-channel convention.
#[derive(Clone, Copy, Debug, PartialEq, Eq, Structural)]
pub enum LogNamespace {
    Legacy,
    Vector,
}

/// A path to a field inside an event body, as a sequence of field names.
#[derive(Debug, PartialEq)]
pub struct FieldPath {
    pub segments: Vec<String>,
}

impl View for FieldPath {
    type V = Seq<Seq<char>>;

    open spec fn view(&self) -> Seq<Seq<char>> {
        path_view(self.segments@)
    }
}

impl FieldPath {
    /// A path of one field name.
    pub fn field(name: String) -> (r: FieldPath)
        ensures
            r@ =~= seq![name@],
    {
        let mut segments: Vec<String> = Vec::new();
        segments.push(name);
        FieldPath { segments }
    }

    /// A path of two field names: a root and a field below it.
    pub fn nested(root: String, name: String) -> (r: FieldPath)
        ensures
            r@ =~= seq![root@, name@],
    {
        let mut segments: Vec<String> = Vec::new();
        segments.push(root);
        segments.push(name);
        FieldPath { segments }
    }
}

impl Clone for FieldPath {
    /// A deep copy: the copy has the same model as the original.
    fn clone(&self) -> (r: FieldPath)
        ensures
            r@ == self@,
    {
        let mut segments: Vec<String> = Vec::new();
        let mut i: usize = 0;
        while i < self.segments.len()
            invariant
                i <= self.segments@.len(),
                segments.len() == i,
                forall|j: int| 0 <= j < i ==> segments@[j]@ == self.segments@[j]@,
            decreases self.segments@.len() - i,
        {
            segments.push(self.segments[i].clone());
            i += 1;
        }
        let r = FieldPath { segments };
        proof {
            assert(r@ =~= self@);
        }
        r
    }
}

/// The models of a sequence of meaning entries.
pub open spec fn meaning_entries_view(s: Seq<(String, FieldPath)>) -> Seq<
    (Seq<char>, Seq<Seq<char>>),
> {
    s.map_values(|e: (String, FieldPath)| (e.0@, e.1@))
}

/// The map from meaning identifier to field path that a sequence of entries
/// denotes; a later entry for the same identifier wins.
pub open spec fn meanings_map_model(s: Seq<(Seq<char>, Seq<Seq<char>>)>) -> Map<
    Seq<char>,
    Seq<Seq<char>>,
>
    decreases s.len(),
{
    if s.len() == 0 {
        Map::empty()
    } else {
        meanings_map_model(s.drop_last()).insert(s.last().0, s.last().1)
    }
}

/// An identifier that no entry carries is not in the map.
pub proof fn lemma_meanings_not_contains(s: Seq<(Seq<char>, Seq<Seq<char>>)>, id: Seq<char>)
    requires
        forall|l: int| 0 <= l < s.len() ==> (#[trigger] s[l]).0 != id,
    ensures
        !meanings_map_model(s).contains_key(id),
    decreases s.len(),
{
    if s.len() > 0 {
        assert(s.last().0 != id);
        let t = s.drop_last();
        assert forall|l: int| 0 <= l < t.len() implies (#[trigger] t[l]).0 != id by {
            assert(t[l] == s[l]);
        }
        lemma_meanings_not_contains(t, id);
    }
}

/// An entry whose identifier no later entry repeats gives the map's value for
/// that identifier.
pub proof fn lemma_meanings_contains(s: Seq<(Seq<char>, Seq<Seq<char>>)>, j: int)
    requires
        0 <= j < s.len(),
        forall|l: int| j < l < s.len() ==> (#[trigger] s[l]).0 != s[j].0,
    ensures
        meanings_map_model(s).contains_key(s[j].0),
        meanings_map_model(s)[s[j].0] == s[j].1,
    decreases s.len(),
{
    if j == s.len() - 1 {
        assert(s.last() == s[j]);
    } else {
        let t = s.drop_last();
        assert(t[j] == s[j]);
        assert forall|l: int| j < l < t.len() implies (#[trigger] t[l]).0 != t[j].0 by {
            assert(t[l] == s[l]);
        }
        lemma_meanings_contains(t, j);
        assert(s.last().0 != s[j].0);
    }
}

/// Updating the entry at `j` in place updates the map, provided no later
/// entry repeats its identifier.
pub proof fn lemma_meanings_update(
    s: Seq<(Seq<char>, Seq<Seq<char>>)>,
    j: int,
    v: Seq<Seq<char>>,
)
    requires
        0 <= j < s.len(),
        forall|l: int| j < l < s.len() ==> (#[trigger] s[l]).0 != s[j].0,
    ensures
        meanings_map_model(s.update(j, (s[j].0, v))) =~= meanings_map_model(s).insert(s[j].0, v),
    decreases s.len(),
{
    let s2 = s.update(j, (s[j].0, v));
    if j == s.len() - 1 {
        assert(s2.drop_last() =~= s.drop_last());
        assert(s2.last() == (s[j].0, v));
    } else {
        let t = s.drop_last();
        assert(t[j] == s[j]);
        assert forall|l: int| j < l < t.len() implies (#[trigger] t[l]).0 != t[j].0 by {
            assert(t[l] == s[l]);
        }
        lemma_meanings_update(t, j, v);
        assert(s2.drop_last() =~= t.update(j, (s[j].0, v)));
        assert(s2.last() == s.last());
        assert(s.last().0 != s[j].0);
    }
}

/// The full static description predicted for events leaving a branch: the
/// event body kind, the metadata kind, the namespaces the branch is valid
/// under, and the semantic meanings currently established.
#[derive(Debug, PartialEq)]
pub struct Definition {
    pub event_kind: Kind,
    pub metadata_kind: Kind,
    pub legacy_namespace: bool,
    pub vector_namespace: bool,
    pub meanings: Vec<(String, FieldPath)>,
}

/// Mathematical model of a [`Definition`]; the meanings are a map from
/// identifier to field path.
#[verifier::ext_equal]
pub ghost struct DefinitionModel {
    pub event_kind: KindModel,
    pub metadata_kind: KindModel,
    pub legacy_namespace: bool,
    pub vector_namespace: bool,
    pub meanings: Map<Seq<char>, Seq<Seq<char>>>,
}

impl View for Definition {
    type V = DefinitionModel;

    open spec fn view(&self) -> DefinitionModel {
        DefinitionModel {
            event_kind: self.event_kind@,
            metadata_kind: self.metadata_kind@,
            legacy_namespace: self.legacy_namespace,
            vector_namespace: self.vector_namespace,
            meanings: meanings_map_model(meaning_entries_view(self.meanings@)),
        }
    }
}

impl Definition {
    /// Each meaning identifier appears at most once.
    pub open spec fn wf(self) -> bool {
        forall|i: int, j: int|
            0 <= i < j < self.meanings@.len() ==> (#[trigger] self.meanings@[i]).0@ != (
            #[trigger] self.meanings@[j]).0@
    }

    /// A definition with the given body and metadata kinds, valid under the
    /// given namespaces, with no meanings.
    pub fn new(event_kind: Kind, metadata_kind: Kind, namespaces: &Vec<LogNamespace>) -> (r:
        Definition)
        ensures
            r@.event_kind == event_kind@,
            r@.metadata_kind == metadata_kind@,
            r@.legacy_namespace == namespaces@.contains(LogNamespace::Legacy),
            r@.vector_namespace == namespaces@.contains(LogNamespace::Vector),
            r@.meanings =~= Map::<Seq<char>, Seq<Seq<char>>>::empty(),
            r.wf(),
    {
        let mut legacy = false;
        let mut vector = false;
        let mut i: usize = 0;
        while i < namespaces.len()
            invariant
                i <= namespaces@.len(),
                legacy == namespaces@.subrange(0, i as int).contains(LogNamespace::Legacy),
                vector == namespaces@.subrange(0, i as int).contains(LogNamespace::Vector),
            decreases namespaces@.len() - i,
        {
            let ghost pre = namespaces@.subrange(0, i as int);
            let ghost cur = namespaces@.subrange(0, i as int + 1);
            match namespaces[i] {
                LogNamespace::Legacy => legacy = true,
                LogNamespace::Vector => vector = true,
            }
            proof {
                assert(cur.drop_last() =~= pre);
                assert(cur.last() == namespaces@[i as int]);
                assert forall|ns: LogNamespace| cur.contains(ns) implies pre.contains(ns) || ns
                    == namespaces@[i as int] by {
                    let l = choose|l: int| 0 <= l < cur.len() && cur[l] == ns;
                    if l < cur.len() - 1 {
                        assert(pre[l] == cur[l]);
                    }
                }
                assert forall|ns: LogNamespace| pre.contains(ns) implies cur.contains(ns) by {
                    let l = choose|l: int| 0 <= l < pre.len() && pre[l] == ns;
                    assert(cur[l] == pre[l]);
                }
                assert(cur.contains(namespaces@[i as int]));
            }
            i += 1;
        }
        proof {
            assert(namespaces@.subrange(0, namespaces@.len() as int) =~= namespaces@);
        }
        Definition {
            event_kind,
            metadata_kind,
            legacy_namespace: legacy,
            vector_namespace: vector,
            meanings: Vec::new(),
        }
    }

    /// A definition with the given body kind, a metadata kind admitting any
    /// object, the given namespaces, and no meanings.
    pub fn new_with_default_metadata(event_kind: Kind, namespaces: &Vec<LogNamespace>) -> (r:
        Definition)
        ensures
            r@.event_kind == event_kind@,
            r@.metadata_kind == (KindModel {
                object: Some(
                    crate::kind::ObjectModel {
                        known: Seq::empty(),
                        unknown: Some(Box::new(KindModel::any_scalar())),
                    },
                ),
                ..KindModel::never()
            }),
            r@.legacy_namespace == namespaces@.contains(LogNamespace::Legacy),
            r@.vector_namespace == namespaces@.contains(LogNamespace::Vector),
            r@.meanings =~= Map::<Seq<char>, Seq<Seq<char>>>::empty(),
            r.wf(),
    {
        Definition::new(event_kind, Kind::any_object(), namespaces)
    }
}

} // verus!

verus! {

/// Position of the first meaning entry with the given identifier, if any.
fn find_meaning(entries: &Vec<(String, FieldPath)>, id: &String) -> (r: Option<usize>)
    ensures
        match r {
            Some(i) => i < entries@.len() && entries@[i as int].0@ == id@ && forall|l: int|
                0 <= l < i ==> (#[trigger] entries@[l]).0@ != id@,
            None => forall|l: int| 0 <= l < entries@.len() ==> (#[trigger] entries@[l]).0@ != id@,
        },
{
    let mut i: usize = 0;
    while i < entries.len()
        invariant
            i <= entries@.len(),
            forall|l: int| 0 <= l < i ==> (#[trigger] entries@[l]).0@ != id@,
        decreases entries@.len() - i,
    {
        if entries[i].0 == *id {
            return Some(i);
        }
        i += 1;
    }
    None
}

/// Binds `id` to `path`, replacing an existing binding for `id` or appending a
/// new one.
fn upsert_meaning(meanings: &mut Vec<(String, FieldPath)>, id: String, path: FieldPath)
    requires
        forall|i: int, j: int|
            0 <= i < j < old(meanings)@.len() ==> (#[trigger] old(meanings)@[i]).0@ != (
            #[trigger] old(meanings)@[j]).0@,
    ensures
        meanings_map_model(meaning_entries_view(final(meanings)@)) =~= meanings_map_model(
            meaning_entries_view(old(meanings)@),
        ).insert(id@, path@),
        forall|i: int, j: int|
            0 <= i < j < final(meanings)@.len() ==> (#[trigger] final(meanings)@[i]).0@ != (
            #[trigger] final(meanings)@[j]).0@,
{
    let ghost pre = meaning_entries_view(meanings@);
    match find_meaning(meanings, &id) {
        Some(j) => {
            meanings[j] = (id, path);
            proof {
                let post = meaning_entries_view(meanings@);
                assert(post =~= pre.update(j as int, (pre[j as int].0, path@)));
                assert forall|l: int| j < l < pre.len() implies (#[trigger] pre[l]).0 != pre[
                    j as int
                ].0 by {
                    assert(pre[l].0 == old(meanings)@[l].0@);
                }
                lemma_meanings_update(pre, j as int, path@);
            }
        },
        None => {
            meanings.push((id, path));
            proof {
                let post = meaning_entries_view(meanings@);
                assert(post.drop_last() =~= pre);
                assert(post.last() == (id@, path@));
            }
        },
    }
}

/// The merge of two meaning maps: every binding of either side, the first
/// side's binding kept where both bind the same identifier.
pub open spec fn merged_meanings_model(
    ma: Map<Seq<char>, Seq<Seq<char>>>,
    mb: Map<Seq<char>, Seq<Seq<char>>>,
) -> Map<Seq<char>, Seq<Seq<char>>> {
    Map::new(
        |k: Seq<char>| ma.contains_key(k) || mb.contains_key(k),
        |k: Seq<char>|
            if ma.contains_key(k) {
                ma[k]
            } else {
                mb[k]
            },
    )
}

impl Clone for Definition {
    /// A deep copy: the copy has the same model as the original, and is
    /// well formed whenever the original is.
    fn clone(&self) -> (r: Definition)
        ensures
            r@ == self@,
            self.wf() ==> r.wf(),
            r.meanings@.len() == self.meanings@.len(),
            forall|j: int|
                0 <= j < self.meanings@.len() ==> (#[trigger] r.meanings@[j]).0@
                    == self.meanings@[j].0@ && r.meanings@[j].1@ == self.meanings@[j].1@,
    {
        let mut meanings: Vec<(String, FieldPath)> = Vec::new();
        let mut i: usize = 0;
        while i < self.meanings.len()
            invariant
                i <= self.meanings@.len(),
                meanings.len() == i,
                forall|j: int|
                    0 <= j < i ==> (#[trigger] meanings@[j]).0@ == self.meanings@[j].0@
                        && meanings@[j].1@ == self.meanings@[j].1@,
            decreases self.meanings@.len() - i,
        {
            let entry = &self.meanings[i];
            let id = entry.0.clone();
            let path = entry.1.clone();
            proof {
                assert(id@ == self.meanings@[i as int].0@);
                assert(path@ == self.meanings@[i as int].1@);
            }
            meanings.push((id, path));
            i += 1;
        }
        let r = Definition {
            event_kind: self.event_kind.clone(),
            metadata_kind: self.metadata_kind.clone(),
            legacy_namespace: self.legacy_namespace,
            vector_namespace: self.vector_namespace,
            meanings,
        };
        proof {
            assert(meaning_entries_view(r.meanings@) =~= meaning_entries_view(self.meanings@));
            assert(r@ =~= self@);
        }
        r
    }
}

impl Definition {
    /// Establishes that `id` resolves to `path`, overwriting any existing
    /// binding for `id`.
    pub fn with_meaning(self, path: FieldPath, id: String) -> (r: Definition)
        requires
            self.wf(),
        ensures
            r@ == (DefinitionModel { meanings: self@.meanings.insert(id@, path@), ..self@ }),
            r.wf(),
    {
        let mut d = self;
        upsert_meaning(&mut d.meanings, id, path);
        d
    }

    /// Copies a meaning over only if its target field is possibly present in
    /// the event kind; returns whether the meaning was kept.
    pub fn try_with_meaning(&mut self, path: FieldPath, id: String) -> (r: bool)
        requires
            old(self).wf(),
        ensures
            r == at_path_model(old(self)@.event_kind, path@).contains_any_defined(),
            r ==> final(self)@ == (DefinitionModel {
                meanings: old(self)@.meanings.insert(id@, path@),
                ..old(self)@
            }),
            !r ==> final(self)@ == old(self)@,
            final(self).wf(),
    {
        let target = self.event_kind.at_path(&path.segments);
        if target.contains_any_defined() {
            upsert_meaning(&mut self.meanings, id, path);
            true
        } else {
            false
        }
    }

    /// Sets the kind of the event field at `path`, and optionally binds a
    /// meaning identifier to that path.
    pub fn with_event_field(self, path: &FieldPath, kind: Kind, meaning: Option<String>) -> (r:
        Definition)
        requires
            self.wf(),
        ensures
            r@.event_kind == set_at_path_model(self@.event_kind, path@, kind@),
            r@.metadata_kind == self@.metadata_kind,
            r@.legacy_namespace == self@.legacy_namespace,
            r@.vector_namespace == self@.vector_namespace,
            r@.meanings == match meaning {
                Some(id) => self@.meanings.insert(id@, path@),
                None => self@.meanings,
            },
            r.wf(),
    {
        let mut d = self;
        let updated = d.event_kind.with_field_at_path(&path.segments, kind);
        d.event_kind = updated;
        match meaning {
            Some(id) => {
                upsert_meaning(&mut d.meanings, id, path.clone());
            },
            None => {},
        }
        d
    }

    /// Sets the kind of the metadata field at `path`.
    pub fn with_metadata_field(self, path: &FieldPath, kind: Kind) -> (r: Definition)
        requires
            self.wf(),
        ensures
            r@.metadata_kind == set_at_path_model(self@.metadata_kind, path@, kind@),
            r@.event_kind == self@.event_kind,
            r@.legacy_namespace == self@.legacy_namespace,
            r@.vector_namespace == self@.vector_namespace,
            r@.meanings == self@.meanings,
            r.wf(),
    {
        let mut d = self;
        let updated = d.metadata_kind.with_field_at_path(&path.segments, kind);
        d.metadata_kind = updated;
        d
    }

    /// Merges another definition into this one: the kinds are unioned, the
    /// namespace sets are unioned, and the meanings of both sides are kept,
    /// this side's binding winning where both bind the same identifier.
    pub fn merge(self, other: &Definition) -> (r: Definition)
        requires
            self.wf(),
            other.wf(),
        ensures
            r@.event_kind == union_model(self@.event_kind, other@.event_kind),
            r@.metadata_kind == union_model(self@.metadata_kind, other@.metadata_kind),
            r@.legacy_namespace == (self@.legacy_namespace || other@.legacy_namespace),
            r@.vector_namespace == (self@.vector_namespace || other@.vector_namespace),
            r@.meanings =~= merged_meanings_model(self@.meanings, other@.meanings),
            r.wf(),
    {
        let ghost mev_a = meaning_entries_view(self.meanings@);
        let ghost mev_b = meaning_entries_view(other.meanings@);
        let ghost ma = meanings_map_model(mev_a);
        let ghost mb = meanings_map_model(mev_b);
        let mut merged = self.clone();
        let mut k: usize = 0;
        proof {
            assert(mev_b.subrange(0, 0) =~= Seq::<(Seq<char>, Seq<Seq<char>>)>::empty());
            assert(merged@.meanings =~= merged_partial_meanings(ma, meanings_map_model(mev_b.subrange(0, 0))));
            assert(meaning_entries_view(merged.meanings@) =~= mev_a);
            assert forall|p: int| 0 <= p < merged.meanings@.len() implies ma.contains_key(
                (#[trigger] merged.meanings@[p]).0@,
            ) by {
                assert forall|l: int| p < l < mev_a.len() implies (#[trigger] mev_a[l]).0
                    != mev_a[p].0 by {
                    assert(mev_a[l].0 == self.meanings@[l].0@);
                    assert(mev_a[p].0 == self.meanings@[p].0@);
                }
                lemma_meanings_contains(mev_a, p);
                assert(mev_a[p].0 == merged.meanings@[p].0@);
            }
        }
        while k < other.meanings.len()
            invariant
                k <= other.meanings@.len(),
                mev_a == meaning_entries_view(self.meanings@),
                mev_b == meaning_entries_view(other.meanings@),
                ma == meanings_map_model(mev_a),
                mb == meanings_map_model(mev_b),
                self.wf(),
                other.wf(),
                merged.event_kind@ == self@.event_kind,
                merged.metadata_kind@ == self@.metadata_kind,
                merged.legacy_namespace == self.legacy_namespace,
                merged.vector_namespace == self.vector_namespace,
                merged@.meanings =~= merged_partial_meanings(
                    ma,
                    meanings_map_model(mev_b.subrange(0, k as int)),
                ),
                merged.wf(),
                forall|p: int|
                    0 <= p < merged.meanings@.len() ==> ma.contains_key(
                        (#[trigger] merged.meanings@[p]).0@,
                    ) || meanings_map_model(mev_b.subrange(0, k as int)).contains_key(
                        merged.meanings@[p].0@,
                    ),
            decreases other.meanings@.len() - k,
        {
            let ghost pre = mev_b.subrange(0, k as int);
            let ghost cur = mev_b.subrange(0, k as int + 1);
            proof {
                assert(cur.drop_last() =~= pre);
                assert(cur.last() == mev_b[k as int]);
                assert(mev_b[k as int] == (other.meanings@[k as int].0@, other.meanings@[k as int].1@));
                assert forall|l: int| 0 <= l < pre.len() implies (#[trigger] pre[l]).0 != mev_b[
                    k as int
                ].0 by {
                    assert(pre[l] == mev_b[l]);
                    assert(mev_b[l].0 == other.meanings@[l].0@);
                }
                lemma_meanings_not_contains(pre, mev_b[k as int].0);
            }
            let entry = &other.meanings[k];
            match find_meaning(&self.meanings, &entry.0) {
                Some(j) => {
                    proof {
                        assert forall|l: int|
                            (j as int) < l < mev_a.len() implies (#[trigger] mev_a[l]).0 != mev_a[
                            j as int
                        ].0 by {
                            assert(mev_a[l].0 == self.meanings@[l].0@);
                            assert(mev_a[j as int].0 == self.meanings@[j as int].0@);
                        }
                        lemma_meanings_contains(mev_a, j as int);
                        assert(ma.contains_key(entry.0@));
                        assert(merged_partial_meanings(ma, meanings_map_model(cur))
                            =~= merged_partial_meanings(ma, meanings_map_model(pre)));
                    }
                },
                None => {
                    proof {
                        assert forall|l: int| 0 <= l < mev_a.len() implies (#[trigger] mev_a[l]).0
                            != entry.0@ by {
                            assert(mev_a[l].0 == self.meanings@[l].0@);
                        }
                        lemma_meanings_not_contains(mev_a, entry.0@);
                    }
                    let ghost preview = meaning_entries_view(merged.meanings@);
                    merged.meanings.push((entry.0.clone(), entry.1.clone()));
                    proof {
                        assert(meaning_entries_view(merged.meanings@).drop_last() =~= preview);
                        assert(meaning_entries_view(merged.meanings@).last() == (
                            entry.0@,
                            entry.1@,
                        ));
                        assert(merged_partial_meanings(ma, meanings_map_model(cur))
                            =~= merged_partial_meanings(ma, meanings_map_model(pre)).insert(
                            entry.0@,
                            entry.1@,
                        ));
                    }
                },
            }
            k += 1;
        }
        proof {
            assert(mev_b.subrange(0, mev_b.len() as int) =~= mev_b);
            assert(merged_partial_meanings(ma, mb) =~= merged_meanings_model(ma, mb));
        }
        let event_kind = merged.event_kind.union(&other.event_kind);
        let metadata_kind = merged.metadata_kind.union(&other.metadata_kind);
        merged.event_kind = event_kind;
        merged.metadata_kind = metadata_kind;
        merged.legacy_namespace = merged.legacy_namespace || other.legacy_namespace;
        merged.vector_namespace = merged.vector_namespace || other.vector_namespace;
        merged
    }
}

/// The merge of a full left meaning map with a partially read right one.
spec fn merged_partial_meanings(
    ma: Map<Seq<char>, Seq<Seq<char>>>,
    mbk: Map<Seq<char>, Seq<Seq<char>>>,
) -> Map<Seq<char>, Seq<Seq<char>>> {
    Map::new(
        |k: Seq<char>| ma.contains_key(k) || mbk.contains_key(k),
        |k: Seq<char>|
            if ma.contains_key(k) {
                ma[k]
            } else {
                mbk[k]
            },
    )
}

} // verus!

verus! {

impl Definition {
    /// The definition of a legacy-namespace branch about which nothing is
    /// known: any object body.
    pub fn default_legacy_namespace() -> (r: Definition)
        ensures
            r@.event_kind == (KindModel {
                object: Some(
                    crate::kind::ObjectModel {
                        known: Seq::empty(),
                        unknown: Some(Box::new(KindModel::any_scalar())),
                    },
                ),
                ..KindModel::never()
            }),
            r@.legacy_namespace && !r@.vector_namespace,
            r@.meanings =~= Map::<Seq<char>, Seq<Seq<char>>>::empty(),
            r.wf(),
    {
        let mut namespaces: Vec<LogNamespace> = Vec::new();
        namespaces.push(LogNamespace::Legacy);
        proof {
            assert(namespaces@[0] == LogNamespace::Legacy);
            assert(namespaces@.contains(LogNamespace::Legacy));
            assert(!namespaces@.contains(LogNamespace::Vector));
        }
        Definition::new_with_default_metadata(Kind::any_object(), &namespaces)
    }

    /// The definition of a legacy-namespace branch whose body is an object
    /// with no fields at all.
    pub fn empty_legacy_namespace() -> (r: Definition)
        ensures
            r@.event_kind == (KindModel {
                object: Some(crate::kind::ObjectModel { known: Seq::empty(), unknown: None }),
                ..KindModel::never()
            }),
            r@.legacy_namespace && !r@.vector_namespace,
            r@.meanings =~= Map::<Seq<char>, Seq<Seq<char>>>::empty(),
            r.wf(),
    {
        let mut namespaces: Vec<LogNamespace> = Vec::new();
        namespaces.push(LogNamespace::Legacy);
        proof {
            assert(namespaces@[0] == LogNamespace::Legacy);
            assert(namespaces@.contains(LogNamespace::Legacy));
            assert(!namespaces@.contains(LogNamespace::Vector));
        }
        let r = Definition::new_with_default_metadata(
            Kind::object(KindObject::from_entries(Vec::new())),
            &namespaces,
        );
        proof {
            assert(crate::kind::kind_entries_view(Seq::<(String, Kind)>::empty()) =~= Seq::<
                (Seq<char>, KindModel),
            >::empty());
        }
        r
    }

    /// The definition that admits anything, under both namespaces.
    pub fn any() -> (r: Definition)
        ensures
            r@.legacy_namespace && r@.vector_namespace,
            r@.meanings =~= Map::<Seq<char>, Seq<Seq<char>>>::empty(),
            r.wf(),
    {
        let mut namespaces: Vec<LogNamespace> = Vec::new();
        namespaces.push(LogNamespace::Legacy);
        namespaces.push(LogNamespace::Vector);
        proof {
            assert(namespaces@[0] == LogNamespace::Legacy);
            assert(namespaces@[1] == LogNamespace::Vector);
            assert(namespaces@.contains(LogNamespace::Legacy));
            assert(namespaces@.contains(LogNamespace::Vector));
        }
        Definition::new(Kind::any(), Kind::any(), &namespaces)
    }
}

} // verus!
