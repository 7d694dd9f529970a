//! Build-time schema projection: predicts the shapes of events leaving the
//! stage, for the primary output and the dropped output, without running any
//! event through the script.

use vstd::prelude::*;

use crate::kind::{
    at_path_model, union_model, ArrayModel, Kind, KindModel, KindObject, ObjectModel,
};
use crate::schema::{merged_meanings_model, Definition, DefinitionModel, FieldPath};

verus! {

/// The compiled script's final type state: the kinds the event body and the
/// metadata would have after a hypothetical run, plus the semantic meanings
/// the script statically establishes.
#[derive(Debug)]
pub struct FinalTypeState {
    pub event_kind: Kind,
    pub metadata_kind: Kind,
    pub meanings: Vec<(String, FieldPath)>,
}

/// Mathematical model of a [`FinalTypeState`].
#[verifier::ext_equal]
pub ghost struct FinalTypeStateModel {
    pub event_kind: KindModel,
    pub metadata_kind: KindModel,
    pub meanings: Map<Seq<char>, Seq<Seq<char>>>,
}

impl View for FinalTypeState {
    type V = FinalTypeStateModel;

    open spec fn view(&self) -> FinalTypeStateModel {
        FinalTypeStateModel {
            event_kind: self.event_kind@,
            metadata_kind: self.metadata_kind@,
            meanings: crate::schema::meanings_map_model(
                crate::schema::meaning_entries_view(self.meanings@),
            ),
        }
    }
}

impl FinalTypeState {
    /// Each meaning identifier appears at most once.
    pub open spec fn wf(self) -> bool {
        forall|i: int, j: int|
            0 <= i < j < self.meanings@.len() ==> (#[trigger] self.meanings@[i]).0@ != (
            #[trigger] self.meanings@[j]).0@
    }
}

/// The kinds of event data a port can carry.
#[derive(Clone, Copy, Debug, PartialEq, Eq, Structural)]
pub struct DataType {
    pub log: bool,
    pub metric: bool,
    pub trace: bool,
}

impl DataType {
    /// Logs, metrics, and traces alike.
    pub fn all() -> (r: DataType)
        ensures
            r.log && r.metric && r.trace,
    {
        DataType { log: true, metric: true, trace: true }
    }
}

/// One output port of the stage: its name (none for the primary port), the
/// event kinds it carries, and the predicted definition per upstream branch.
#[derive(Debug, PartialEq)]
pub struct TransformOutput {
    pub port: Option<String>,
    pub data_type: DataType,
    pub definitions: Vec<(String, Definition)>,
}

/// Mathematical model of a [`TransformOutput`].
#[verifier::ext_equal]
pub ghost struct TransformOutputModel {
    pub port: Option<Seq<char>>,
    pub data_type: DataType,
    pub definitions: Seq<(Seq<char>, DefinitionModel)>,
}

impl View for TransformOutput {
    type V = TransformOutputModel;

    open spec fn view(&self) -> TransformOutputModel {
        TransformOutputModel {
            port: match self.port {
                Some(p) => Some(p@),
                None => None,
            },
            data_type: self.data_type,
            definitions: definitions_view(self.definitions@),
        }
    }
}

/// The models of a sequence of per-branch definitions.
pub open spec fn definitions_view(s: Seq<(String, Definition)>) -> Seq<(Seq<char>, DefinitionModel)> {
    s.map_values(|e: (String, Definition)| (e.0@, e.1@))
}

// -------------------------------------------------------------------------
// The flattening and promotion steps applied to every projected definition.
// -------------------------------------------------------------------------

/// The definition with the array possibility of its event kind removed and
/// the union of the array's element kinds unioned back in at the top level.
///
/// The runtime fans a top-level array out into one event per element, so the
/// predicted output shape must be the elements' shape, not an array shape.
pub open spec fn flatten_array_model(d: DefinitionModel) -> DefinitionModel {
    match d.event_kind.array {
        Some(arr) => DefinitionModel {
            event_kind: union_model(
                KindModel { array: None, ..d.event_kind },
                arr.reduced(),
            ),
            ..d
        },
        None => d,
    }
}

/// The scalar part of a kind: the same possibilities with arrays and objects
/// removed.
pub open spec fn scalar_part_model(k: KindModel) -> KindModel {
    KindModel { array: None, object: None, ..k }
}

/// The kind with every scalar possibility removed; absence is kept.
pub open spec fn without_scalars_model(k: KindModel) -> KindModel {
    KindModel {
        null: false,
        boolean: false,
        integer: false,
        float: false,
        bytes: false,
        timestamp: false,
        regex: false,
        ..k
    }
}

/// The definition with any scalar possibility of its event kind wrapped into
/// an object under the `message` field, unioned with the object possibility
/// that remains.
///
/// The runtime wraps any non-map result value into a `message` field before
/// emitting, so the predicted output shape must show the same wrapping; an
/// existing `message` field is unioned with, not overwritten.
pub open spec fn promote_scalars_model(d: DefinitionModel) -> DefinitionModel {
    let message = scalar_part_model(d.event_kind);
    if message.is_never() {
        d
    } else {
        let wrapped = KindModel {
            object: Some(ObjectModel { known: seq![("message"@, message)], unknown: None }),
            ..KindModel::never()
        };
        DefinitionModel {
            event_kind: union_model(without_scalars_model(d.event_kind), wrapped),
            ..d
        }
    }
}

/// If the event kind can be an array, replaces that possibility by the union
/// of the array's element kinds at the top level.
pub fn merge_array_definitions(definition: Definition) -> (r: Definition)
    ensures
        r@ == flatten_array_model(definition@),
        r.wf() == definition.wf(),
{
    let mut d = definition;
    let array = d.event_kind.array.take();
    match array {
        Some(arr) => {
            let reduced = arr.reduced_kind();
            let merged = d.event_kind.union(&reduced);
            d.event_kind = merged;
            proof {
                assert(d@ =~= flatten_array_model(definition@));
            }
            d
        },
        None => d,
    }
}

/// If the event kind admits a scalar, null, timestamp, or regular-expression
/// value, moves those possibilities into a `message` field of an object.
pub fn move_field_definitions_into_message(definition: Definition) -> (r: Definition)
    ensures
        r@ == promote_scalars_model(definition@),
        r.wf() == definition.wf(),
{
    let mut message = definition.event_kind.clone();
    message.array = None;
    message.object = None;
    if !message.is_never() {
        let mut entries: Vec<(String, Kind)> = Vec::new();
        entries.push(("message".to_owned(), message));
        let ghost entries_snapshot = entries@;
        let wrapped = Kind::object(KindObject::from_entries(entries));
        let mut d = definition;
        d.event_kind.null = false;
        d.event_kind.boolean = false;
        d.event_kind.integer = false;
        d.event_kind.float = false;
        d.event_kind.bytes = false;
        d.event_kind.timestamp = false;
        d.event_kind.regex = false;
        let unioned = d.event_kind.union(&wrapped);
        d.event_kind = unioned;
        proof {
            crate::kind::lemma_kind_entries_view(entries_snapshot);
            assert(crate::kind::kind_entries_view(entries_snapshot) =~= seq![
                ("message"@, scalar_part_model(definition@.event_kind)),
            ]);
            assert(d@ =~= promote_scalars_model(definition@));
        }
        d
    } else {
        definition
    }
}

} // verus!

// -------------------------------------------------------------------------
// The projected definitions: primary output and dropped output.
// -------------------------------------------------------------------------

verus! {

/// The kind admitting only byte strings.
pub open spec fn bytes_kind_model() -> KindModel {
    KindModel { bytes: true, ..KindModel::never() }
}

/// The kind admitting any object whose field values may have every scalar
/// shape: the default metadata kind.
pub open spec fn any_object_kind_model() -> KindModel {
    KindModel {
        object: Some(
            ObjectModel { known: Seq::empty(), unknown: Some(Box::new(KindModel::any_scalar())) },
        ),
        ..KindModel::never()
    }
}

/// The input's meanings restricted to those whose target field is possibly
/// present under the given event kind.
pub open spec fn copied_meanings_model(
    event_kind: KindModel,
    meanings: Map<Seq<char>, Seq<Seq<char>>>,
) -> Map<Seq<char>, Seq<Seq<char>>> {
    Map::new(
        |id: Seq<char>|
            meanings.contains_key(id) && at_path_model(
                event_kind,
                meanings[id],
            ).contains_any_defined(),
        |id: Seq<char>| meanings[id],
    )
}

/// The base meanings overlaid with the script's own: the script's binding
/// wins where both bind the same identifier.
pub open spec fn overlay_meanings_model(
    base: Map<Seq<char>, Seq<Seq<char>>>,
    over: Map<Seq<char>, Seq<Seq<char>>>,
) -> Map<Seq<char>, Seq<Seq<char>>> {
    Map::new(
        |id: Seq<char>| base.contains_key(id) || over.contains_key(id),
        |id: Seq<char>|
            if over.contains_key(id) {
                over[id]
            } else {
                base[id]
            },
    )
}

/// The primary output's definition for one input branch, before flattening
/// and promotion: the compiled state's kinds, the input's still-valid
/// meanings, and the script's own meanings on top. A program that failed to
/// compile can never emit a value, so its body kind is `never`.
pub open spec fn default_definition_model(
    state: Option<FinalTypeStateModel>,
    input: DefinitionModel,
) -> DefinitionModel {
    match state {
        Some(st) => DefinitionModel {
            event_kind: st.event_kind,
            metadata_kind: st.metadata_kind,
            legacy_namespace: input.legacy_namespace,
            vector_namespace: input.vector_namespace,
            meanings: overlay_meanings_model(
                copied_meanings_model(st.event_kind, input.meanings),
                st.meanings,
            ),
        },
        None => DefinitionModel {
            event_kind: KindModel::never(),
            metadata_kind: any_object_kind_model(),
            legacy_namespace: input.legacy_namespace,
            vector_namespace: input.vector_namespace,
            meanings: Map::empty(),
        },
    }
}

/// The fixed shape of the diagnostic payload attached to dropped events.
pub open spec fn dropped_payload_kind_model() -> KindModel {
    KindModel {
        object: Some(
            ObjectModel {
                known: seq![
                    ("reason"@, bytes_kind_model()),
                    ("message"@, bytes_kind_model()),
                    ("component_id"@, bytes_kind_model()),
                    ("component_type"@, bytes_kind_model()),
                    ("component_kind"@, bytes_kind_model()),
                ],
                unknown: None,
            },
        ),
        ..KindModel::never()
    }
}

/// The merge of two definition models, as [`Definition::merge`] computes it.
pub open spec fn merged_definition_model(a: DefinitionModel, b: DefinitionModel) -> DefinitionModel {
    DefinitionModel {
        event_kind: union_model(a.event_kind, b.event_kind),
        metadata_kind: union_model(a.metadata_kind, b.metadata_kind),
        legacy_namespace: a.legacy_namespace || b.legacy_namespace,
        vector_namespace: a.vector_namespace || b.vector_namespace,
        meanings: merged_meanings_model(a.meanings, b.meanings),
    }
}

/// The input definition with the diagnostic payload nested under the
/// `metadata` event field, as the legacy namespace carries it.
pub open spec fn legacy_annotated_model(input: DefinitionModel) -> DefinitionModel {
    DefinitionModel {
        event_kind: crate::kind::set_at_path_model(
            input.event_kind,
            seq!["metadata"@],
            dropped_payload_kind_model(),
        ),
        meanings: input.meanings.insert("metadata"@, seq!["metadata"@]),
        ..input
    }
}

/// The input definition with the diagnostic payload's fields written at the
/// metadata root, as the structured-metadata namespace carries them.
pub open spec fn vector_annotated_model(input: DefinitionModel) -> DefinitionModel {
    let m0 = crate::kind::set_at_path_model(
        input.metadata_kind,
        seq!["reason"@],
        bytes_kind_model(),
    );
    let m1 = crate::kind::set_at_path_model(m0, seq!["message"@], bytes_kind_model());
    let m2 = crate::kind::set_at_path_model(m1, seq!["component_id"@], bytes_kind_model());
    let m3 = crate::kind::set_at_path_model(m2, seq!["component_type"@], bytes_kind_model());
    let m4 = crate::kind::set_at_path_model(m3, seq!["component_kind"@], bytes_kind_model());
    DefinitionModel { metadata_kind: m4, ..input }
}

/// The dropped output's definition for one input branch, before flattening
/// and promotion: `never` for the body, plus the diagnostic payload's shape
/// merged in per active namespace. Produced unconditionally; whether the
/// dropped output exists at all is a separate, build-time decision.
pub open spec fn dropped_definition_model(input: DefinitionModel) -> DefinitionModel {
    let base = DefinitionModel {
        event_kind: KindModel::never(),
        metadata_kind: any_object_kind_model(),
        legacy_namespace: input.legacy_namespace,
        vector_namespace: input.vector_namespace,
        meanings: Map::empty(),
    };
    let with_legacy = if input.legacy_namespace {
        merged_definition_model(base, legacy_annotated_model(input))
    } else {
        base
    };
    if input.vector_namespace {
        merged_definition_model(with_legacy, vector_annotated_model(input))
    } else {
        with_legacy
    }
}

/// The primary output's definition for one input branch: the compiled state
/// projected, arrays flattened, scalars promoted into `message`.
pub open spec fn projected_default_model(
    state: Option<FinalTypeStateModel>,
    input: DefinitionModel,
) -> DefinitionModel {
    promote_scalars_model(flatten_array_model(default_definition_model(state, input)))
}

/// The dropped output's definition for one input branch: the annotated input
/// shape, arrays flattened, scalars promoted into `message`.
pub open spec fn projected_dropped_model(input: DefinitionModel) -> DefinitionModel {
    promote_scalars_model(flatten_array_model(dropped_definition_model(input)))
}

/// The model of an optional compiled state.
pub open spec fn state_view(state: Option<&FinalTypeState>) -> Option<FinalTypeStateModel> {
    match state {
        Some(st) => Some(st@),
        None => None,
    }
}

/// The fixed shape of the diagnostic payload attached to dropped events.
fn dropped_payload_kind() -> (r: Kind)
    ensures
        r@ == dropped_payload_kind_model(),
{
    let mut entries: Vec<(String, Kind)> = Vec::new();
    entries.push(("reason".to_owned(), Kind::bytes()));
    entries.push(("message".to_owned(), Kind::bytes()));
    entries.push(("component_id".to_owned(), Kind::bytes()));
    entries.push(("component_type".to_owned(), Kind::bytes()));
    entries.push(("component_kind".to_owned(), Kind::bytes()));
    let ghost snapshot = entries@;
    let r = Kind::object(KindObject::from_entries(entries));
    proof {
        crate::kind::lemma_kind_entries_view(snapshot);
        assert(crate::kind::kind_entries_view(snapshot) =~= seq![
            ("reason"@, bytes_kind_model()),
            ("message"@, bytes_kind_model()),
            ("component_id"@, bytes_kind_model()),
            ("component_type"@, bytes_kind_model()),
            ("component_kind"@, bytes_kind_model()),
        ]);
    }
    r
}

} // verus!

verus! {

/// The primary output's definition for one input branch, before flattening
/// and promotion.
fn default_definition(state: Option<&FinalTypeState>, input: &Definition) -> (r: Definition)
    requires
        input.wf(),
        match state {
            Some(st) => st.wf(),
            None => true,
        },
    ensures
        r@ == default_definition_model(state_view(state), input@),
        r.wf(),
{
    match state {
        Some(st) => {
            let mut d = Definition {
                event_kind: st.event_kind.clone(),
                metadata_kind: st.metadata_kind.clone(),
                legacy_namespace: input.legacy_namespace,
                vector_namespace: input.vector_namespace,
                meanings: Vec::new(),
            };
            let ghost mev_in = crate::schema::meaning_entries_view(input.meanings@);
            let ghost min = crate::schema::meanings_map_model(mev_in);
            proof {
                assert(crate::schema::meaning_entries_view(Seq::<(String, FieldPath)>::empty())
                    =~= Seq::<(Seq<char>, Seq<Seq<char>>)>::empty());
                assert(mev_in.subrange(0, 0) =~= Seq::<(Seq<char>, Seq<Seq<char>>)>::empty());
                assert(d@.meanings =~= copied_meanings_model(
                    st@.event_kind,
                    crate::schema::meanings_map_model(mev_in.subrange(0, 0)),
                ));
            }
            let mut i: usize = 0;
            while i < input.meanings.len()
                invariant
                    i <= input.meanings@.len(),
                    input.wf(),
                    mev_in == crate::schema::meaning_entries_view(input.meanings@),
                    min == crate::schema::meanings_map_model(mev_in),
                    d.event_kind@ == st@.event_kind,
                    d.metadata_kind@ == st@.metadata_kind,
                    d.legacy_namespace == input.legacy_namespace,
                    d.vector_namespace == input.vector_namespace,
                    d.wf(),
                    d@.meanings =~= copied_meanings_model(
                        st@.event_kind,
                        crate::schema::meanings_map_model(mev_in.subrange(0, i as int)),
                    ),
                decreases input.meanings@.len() - i,
            {
                let ghost pre = mev_in.subrange(0, i as int);
                let ghost cur = mev_in.subrange(0, i as int + 1);
                proof {
                    assert(cur.drop_last() =~= pre);
                    assert(cur.last() == mev_in[i as int]);
                    assert(mev_in[i as int] == (
                        input.meanings@[i as int].0@,
                        input.meanings@[i as int].1@,
                    ));
                    assert forall|l: int| 0 <= l < pre.len() implies (#[trigger] pre[l]).0
                        != mev_in[i as int].0 by {
                        assert(pre[l] == mev_in[l]);
                        assert(mev_in[l].0 == input.meanings@[l].0@);
                        assert(mev_in[i as int].0 == input.meanings@[i as int].0@);
                    }
                    crate::schema::lemma_meanings_not_contains(pre, mev_in[i as int].0);
                }
                let entry = &input.meanings[i];
                let _ = d.try_with_meaning(entry.1.clone(), entry.0.clone());
                proof {
                    assert(d@.meanings =~= copied_meanings_model(
                        st@.event_kind,
                        crate::schema::meanings_map_model(cur),
                    ));
                }
                i += 1;
            }
            proof {
                assert(mev_in.subrange(0, mev_in.len() as int) =~= mev_in);
            }
            let ghost copied = copied_meanings_model(st@.event_kind, min);
            let ghost mev_st = crate::schema::meaning_entries_view(st.meanings@);
            let ghost mst = crate::schema::meanings_map_model(mev_st);
            proof {
                assert(mev_st.subrange(0, 0) =~= Seq::<(Seq<char>, Seq<Seq<char>>)>::empty());
                assert(d@.meanings =~= overlay_meanings_model(
                    copied,
                    crate::schema::meanings_map_model(mev_st.subrange(0, 0)),
                ));
            }
            let mut j: usize = 0;
            while j < st.meanings.len()
                invariant
                    j <= st.meanings@.len(),
                    st.wf(),
                    mev_st == crate::schema::meaning_entries_view(st.meanings@),
                    mst == crate::schema::meanings_map_model(mev_st),
                    d.event_kind@ == st@.event_kind,
                    d.metadata_kind@ == st@.metadata_kind,
                    d.legacy_namespace == input.legacy_namespace,
                    d.vector_namespace == input.vector_namespace,
                    d.wf(),
                    d@.meanings =~= overlay_meanings_model(
                        copied,
                        crate::schema::meanings_map_model(mev_st.subrange(0, j as int)),
                    ),
                decreases st.meanings@.len() - j,
            {
                let ghost pre = mev_st.subrange(0, j as int);
                let ghost cur = mev_st.subrange(0, j as int + 1);
                proof {
                    assert(cur.drop_last() =~= pre);
                    assert(cur.last() == mev_st[j as int]);
                    assert(mev_st[j as int] == (
                        st.meanings@[j as int].0@,
                        st.meanings@[j as int].1@,
                    ));
                    assert forall|l: int| 0 <= l < pre.len() implies (#[trigger] pre[l]).0
                        != mev_st[j as int].0 by {
                        assert(pre[l] == mev_st[l]);
                        assert(mev_st[l].0 == st.meanings@[l].0@);
                        assert(mev_st[j as int].0 == st.meanings@[j as int].0@);
                    }
                    crate::schema::lemma_meanings_not_contains(pre, mev_st[j as int].0);
                }
                let entry = &st.meanings[j];
                d = d.with_meaning(entry.1.clone(), entry.0.clone());
                proof {
                    assert(d@.meanings =~= overlay_meanings_model(
                        copied,
                        crate::schema::meanings_map_model(cur),
                    ));
                }
                j += 1;
            }
            proof {
                assert(mev_st.subrange(0, mev_st.len() as int) =~= mev_st);
                assert(d@ =~= default_definition_model(state_view(state), input@));
            }
            d
        },
        None => {
            let d = Definition {
                event_kind: Kind::never(),
                metadata_kind: Kind::any_object(),
                legacy_namespace: input.legacy_namespace,
                vector_namespace: input.vector_namespace,
                meanings: Vec::new(),
            };
            proof {
                assert(crate::schema::meaning_entries_view(Seq::<(String, FieldPath)>::empty())
                    =~= Seq::<(Seq<char>, Seq<Seq<char>>)>::empty());
                assert(d@ =~= default_definition_model(state_view(state), input@));
            }
            d
        },
    }
}

/// The dropped output's definition for one input branch, before flattening
/// and promotion.
fn dropped_definition(input: &Definition) -> (r: Definition)
    requires
        input.wf(),
    ensures
        r@ == dropped_definition_model(input@),
        r.wf(),
{
    let mut dropped = Definition {
        event_kind: Kind::never(),
        metadata_kind: Kind::any_object(),
        legacy_namespace: input.legacy_namespace,
        vector_namespace: input.vector_namespace,
        meanings: Vec::new(),
    };
    proof {
        assert(crate::schema::meaning_entries_view(Seq::<(String, FieldPath)>::empty()) =~= Seq::<
            (Seq<char>, Seq<Seq<char>>),
        >::empty());
        assert(dropped@.meanings =~= Map::<Seq<char>, Seq<Seq<char>>>::empty());
    }
    if input.legacy_namespace {
        let annotated = input.clone().with_event_field(
            &FieldPath::field("metadata".to_owned()),
            dropped_payload_kind(),
            Some("metadata".to_owned()),
        );
        dropped = dropped.merge(&annotated);
        proof {
            assert(dropped@ =~= merged_definition_model(
                DefinitionModel {
                    event_kind: KindModel::never(),
                    metadata_kind: any_object_kind_model(),
                    legacy_namespace: input@.legacy_namespace,
                    vector_namespace: input@.vector_namespace,
                    meanings: Map::empty(),
                },
                legacy_annotated_model(input@),
            ));
        }
    }
    if input.vector_namespace {
        let annotated = input.clone().with_metadata_field(
            &FieldPath::field("reason".to_owned()),
            Kind::bytes(),
        ).with_metadata_field(&FieldPath::field("message".to_owned()), Kind::bytes())
            .with_metadata_field(&FieldPath::field("component_id".to_owned()), Kind::bytes())
            .with_metadata_field(&FieldPath::field("component_type".to_owned()), Kind::bytes())
            .with_metadata_field(&FieldPath::field("component_kind".to_owned()), Kind::bytes());
        proof {
            assert(annotated@ =~= vector_annotated_model(input@));
        }
        dropped = dropped.merge(&annotated);
    }
    proof {
        assert(dropped@ =~= dropped_definition_model(input@));
    }
    dropped
}

} // verus!

verus! {

impl crate::config::RemapConfig {
    /// Computes the stage's output ports and, per upstream input branch, the
    /// predicted definition of events leaving each port.
    ///
    /// `compiled` is the script's final type state, or `None` where the
    /// script failed to compile: projection then degrades to a `never` body
    /// rather than failing, since compile errors are surfaced separately at
    /// build time. The primary port always exists; a `dropped` port exists if
    /// and only if rerouting is enabled.
    pub fn outputs(&self, compiled: Option<&FinalTypeState>, input_definitions: &Vec<
        (String, Definition),
    >) -> (r: Vec<TransformOutput>)
        requires
            forall|i: int|
                0 <= i < input_definitions@.len() ==> (#[trigger] input_definitions@[i]).1.wf(),
            match compiled {
                Some(st) => st.wf(),
                None => true,
            },
        ensures
            r@.len() == if self.reroute_dropped {
                2int
            } else {
                1int
            },
            r@[0]@.port is None,
            r@[0]@.data_type == (DataType { log: true, metric: true, trace: true }),
            r@[0]@.definitions.len() == input_definitions@.len(),
            forall|i: int|
                0 <= i < input_definitions@.len() ==> #[trigger] r@[0]@.definitions[i] == (
                    input_definitions@[i].0@,
                    projected_default_model(state_view(compiled), input_definitions@[i].1@),
                ),
            self.reroute_dropped ==> {
                &&& r@[1]@.port == Some("dropped"@)
                &&& r@[1]@.data_type == (DataType { log: true, metric: true, trace: true })
                &&& r@[1]@.definitions.len() == input_definitions@.len()
                &&& forall|i: int|
                    0 <= i < input_definitions@.len() ==> #[trigger] r@[1]@.definitions[i] == (
                        input_definitions@[i].0@,
                        projected_dropped_model(input_definitions@[i].1@),
                    )
            },
    {
        let mut default_definitions: Vec<(String, Definition)> = Vec::new();
        let mut dropped_definitions: Vec<(String, Definition)> = Vec::new();
        let mut i: usize = 0;
        while i < input_definitions.len()
            invariant
                i <= input_definitions@.len(),
                forall|l: int|
                    0 <= l < input_definitions@.len() ==> (#[trigger] input_definitions@[l]).1.wf(),
                match compiled {
                    Some(st) => st.wf(),
                    None => true,
                },
                default_definitions@.len() == i,
                dropped_definitions@.len() == i,
                forall|l: int|
                    0 <= l < i ==> (#[trigger] default_definitions@[l]).0@
                        == input_definitions@[l].0@ && default_definitions@[l].1@
                        == projected_default_model(state_view(compiled), input_definitions@[l].1@),
                forall|l: int|
                    0 <= l < i ==> (#[trigger] dropped_definitions@[l]).0@
                        == input_definitions@[l].0@ && dropped_definitions@[l].1@
                        == projected_dropped_model(input_definitions@[l].1@),
            decreases input_definitions@.len() - i,
        {
            let entry = &input_definitions[i];
            let default_def = move_field_definitions_into_message(
                merge_array_definitions(default_definition(compiled, &entry.1)),
            );
            let dropped_def = move_field_definitions_into_message(
                merge_array_definitions(dropped_definition(&entry.1)),
            );
            default_definitions.push((entry.0.clone(), default_def));
            dropped_definitions.push((entry.0.clone(), dropped_def));
            i += 1;
        }
        let mut r: Vec<TransformOutput> = Vec::new();
        let reroute = self.reroute_dropped;
        r.push(
            TransformOutput {
                port: None,
                data_type: DataType::all(),
                definitions: default_definitions,
            },
        );
        if reroute {
            r.push(
                TransformOutput {
                    port: Some("dropped".to_owned()),
                    data_type: DataType::all(),
                    definitions: dropped_definitions,
                },
            );
        }
        proof {
            assert forall|l: int| 0 <= l < input_definitions@.len() implies #[trigger] r@[0]@
                .definitions[l] == (
                input_definitions@[l].0@,
                projected_default_model(state_view(compiled), input_definitions@[l].1@),
            ) by {
                assert(r@[0]@.definitions[l] == (r@[0].definitions@[l].0@, r@[0].definitions@[l].1@));
            }
            if reroute {
                assert forall|l: int| 0 <= l < input_definitions@.len() implies #[trigger] r@[1]@
                    .definitions[l] == (
                    input_definitions@[l].0@,
                    projected_dropped_model(input_definitions@[l].1@),
                ) by {
                    assert(r@[1]@.definitions[l] == (
                        r@[1].definitions@[l].0@,
                        r@[1].definitions@[l].1@,
                    ));
                }
            }
        }
        r
    }
}

} // verus!

verus! {

impl crate::config::RemapConfig {
    /// The stage accepts every kind of event data.
    pub fn input(&self) -> (r: DataType)
        ensures
            r.log && r.metric && r.trace,
    {
        DataType::all()
    }

    /// Independent replicas of the stage may run concurrently.
    pub fn enable_concurrency(&self) -> (r: bool)
        ensures
            r,
    {
        true
    }
}

} // verus!
