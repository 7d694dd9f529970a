//! The per-event runtime: turns an event into a script target, interprets the
//! run's outcome, applies the drop/reroute policy, and emits zero or more
//! events to the primary or dropped output.

use vstd::prelude::*;

use crate::config::{MetricTagValues, RemapConfig, TimeZone};
use crate::event::{
    stamp_model, Event, EventMetadata, EventMetadataModel, EventModel, LogEvent, LogEventModel,
    Metric, MetricModel, TraceEvent, TraceEventModel,
};
use crate::schema::{Definition, DefinitionModel, LogNamespace};
use crate::value::{value_entries_view, value_seq_view, value_set_model, Value, ValueModel};

verus! {

// -------------------------------------------------------------------------
// The compiled program's runtime face, and the faults a run can raise.
// -------------------------------------------------------------------------

/// What the engine needs to know of a compiled script: whether any reachable
/// statement can raise a runtime error, and whether any can explicitly abort.
/// Both are used only to decide whether a pre-mutation copy is required.
#[derive(Clone, Copy, Debug, PartialEq, Eq, Structural)]
pub struct Program {
    pub fallible: bool,
    pub abortable: bool,
}

/// One annotation attached to a runtime fault.
#[derive(Debug, PartialEq)]
pub enum Note {
    /// A message the script's author wrote, as in an assertion or an abort.
    UserErrorMessage(String),
    /// Any other annotation.
    Other(String),
}

/// Mathematical model of a [`Note`].
#[verifier::ext_equal]
pub ghost enum NoteModel {
    UserErrorMessage(Seq<char>),
    Other(Seq<char>),
}

impl View for Note {
    type V = NoteModel;

    open spec fn view(&self) -> NoteModel {
        match self {
            Note::UserErrorMessage(s) => NoteModel::UserErrorMessage(s@),
            Note::Other(s) => NoteModel::Other(s@),
        }
    }
}

/// A runtime fault: its default string form, and its ordered annotations.
#[derive(Debug, PartialEq)]
pub struct ExpressionError {
    pub message: String,
    pub notes: Vec<Note>,
}

/// Mathematical model of an [`ExpressionError`].
#[verifier::ext_equal]
pub ghost struct ExpressionErrorModel {
    pub message: Seq<char>,
    pub notes: Seq<NoteModel>,
}

impl View for ExpressionError {
    type V = ExpressionErrorModel;

    open spec fn view(&self) -> ExpressionErrorModel {
        ExpressionErrorModel {
            message: self.message@,
            notes: self.notes@.map_values(|n: Note| n@),
        }
    }
}

/// How a run can end without a value: an explicit abort, or a runtime error.
#[derive(Debug, PartialEq)]
pub enum Terminate {
    Abort(ExpressionError),
    Error(ExpressionError),
}

/// Mathematical model of a [`Terminate`].
#[verifier::ext_equal]
pub ghost enum TerminateModel {
    Abort(ExpressionErrorModel),
    Error(ExpressionErrorModel),
}

impl View for Terminate {
    type V = TerminateModel;

    open spec fn view(&self) -> TerminateModel {
        match self {
            Terminate::Abort(e) => TerminateModel::Abort(e@),
            Terminate::Error(e) => TerminateModel::Error(e@),
        }
    }
}

// -------------------------------------------------------------------------
// The script target: the mutable form an event takes while the script runs.
// -------------------------------------------------------------------------

/// The mutable target a script runs against.
#[derive(Debug)]
pub enum VrlTarget {
    LogEvent { value: Value, namespace: LogNamespace, metadata: EventMetadata },
    Metric { metric: Metric, multi_value_tags: bool },
    Trace { value: Value, metadata: EventMetadata },
}

/// Mathematical model of a [`VrlTarget`].
#[verifier::ext_equal]
pub ghost enum VrlTargetModel {
    LogEvent { value: ValueModel, namespace: LogNamespace, metadata: EventMetadataModel },
    Metric { metric: MetricModel, multi_value_tags: bool },
    Trace { value: ValueModel, metadata: EventMetadataModel },
}

impl View for VrlTarget {
    type V = VrlTargetModel;

    open spec fn view(&self) -> VrlTargetModel {
        match self {
            VrlTarget::LogEvent { value, namespace, metadata } => VrlTargetModel::LogEvent {
                value: value@,
                namespace: *namespace,
                metadata: metadata@,
            },
            VrlTarget::Metric { metric, multi_value_tags } => VrlTargetModel::Metric {
                metric: metric@,
                multi_value_tags: *multi_value_tags,
            },
            VrlTarget::Trace { value, metadata } => VrlTargetModel::Trace {
                value: value@,
                metadata: metadata@,
            },
        }
    }
}

/// The target an event is turned into before the script runs.
pub open spec fn target_of_model(event: EventModel, multi_value_tags: bool) -> VrlTargetModel {
    match event {
        EventModel::Log(log) => VrlTargetModel::LogEvent {
            value: log.value,
            namespace: log.namespace,
            metadata: log.metadata,
        },
        EventModel::Metric(metric) => VrlTargetModel::Metric { metric, multi_value_tags },
        EventModel::Trace(trace) => VrlTargetModel::Trace {
            value: trace.value,
            metadata: trace.metadata,
        },
    }
}

/// The script mutates the event in place; it never turns one event kind into
/// another, and never moves a log event between namespaces.
pub open spec fn shape_preserved(before: VrlTargetModel, after: VrlTargetModel) -> bool {
    match (before, after) {
        (
            VrlTargetModel::LogEvent { namespace: n1, .. },
            VrlTargetModel::LogEvent { namespace: n2, .. },
        ) => n1 == n2,
        (VrlTargetModel::Metric { .. }, VrlTargetModel::Metric { .. }) => true,
        (VrlTargetModel::Trace { .. }, VrlTargetModel::Trace { .. }) => true,
        _ => false,
    }
}

/// A non-map, non-array result value is wrapped into a `message` field before
/// it is emitted as a log or trace body.
pub open spec fn wrapped_log_value_model(v: ValueModel) -> ValueModel {
    match v {
        ValueModel::Object(_) => v,
        ValueModel::Array(_) => v,
        _ => ValueModel::Object(seq![("message"@, v)]),
    }
}

/// The events a target yields after a successful run: a top-level array fans
/// out into one event per element, in order, for logs and traces; a metric
/// yields exactly itself.
pub open spec fn target_events_model(t: VrlTargetModel) -> Seq<EventModel> {
    match t {
        VrlTargetModel::LogEvent { value, namespace, metadata } => match value {
            ValueModel::Array(elems) => elems.map_values(
                |e: ValueModel|
                    EventModel::Log(
                        LogEventModel { value: wrapped_log_value_model(e), namespace, metadata },
                    ),
            ),
            _ => seq![
                EventModel::Log(
                    LogEventModel { value: wrapped_log_value_model(value), namespace, metadata },
                ),
            ],
        },
        VrlTargetModel::Metric { metric, .. } => seq![EventModel::Metric(metric)],
        VrlTargetModel::Trace { value, metadata } => match value {
            ValueModel::Array(elems) => elems.map_values(
                |e: ValueModel|
                    EventModel::Trace(
                        TraceEventModel { value: wrapped_log_value_model(e), metadata },
                    ),
            ),
            _ => seq![
                EventModel::Trace(
                    TraceEventModel { value: wrapped_log_value_model(value), metadata },
                ),
            ],
        },
    }
}

fn wrap_scalar_value(v: Value) -> (r: Value)
    ensures
        r@ == ValueModel::Object(seq![("message"@, v@)]),
{
    let mut entries: Vec<(String, Value)> = Vec::new();
    entries.push(("message".to_owned(), v));
    let ghost snap = entries@;
    let r = Value::Object(entries);
    proof {
        crate::value::lemma_value_entries_view(snap);
        assert(value_entries_view(snap) =~= seq![("message"@, v@)]);
    }
    r
}

fn wrap_log_value(v: Value) -> (r: Value)
    ensures
        r@ == wrapped_log_value_model(v@),
{
    match v {
        Value::Object(e) => Value::Object(e),
        Value::Array(e) => Value::Array(e),
        Value::Null => wrap_scalar_value(Value::Null),
        Value::Boolean(b) => wrap_scalar_value(Value::Boolean(b)),
        Value::Integer(n) => wrap_scalar_value(Value::Integer(n)),
        Value::Float(bits) => wrap_scalar_value(Value::Float(bits)),
        Value::Bytes(s) => wrap_scalar_value(Value::Bytes(s)),
        Value::Timestamp(n) => wrap_scalar_value(Value::Timestamp(n)),
        Value::Regex(s) => wrap_scalar_value(Value::Regex(s)),
    }
}

impl VrlTarget {
    /// Turns an inbound event into the target the script will run against.
    pub fn new(event: Event, multi_value_tags: bool) -> (r: VrlTarget)
        ensures
            r@ == target_of_model(event@, multi_value_tags),
    {
        match event {
            Event::Log(log) => VrlTarget::LogEvent {
                value: log.value,
                namespace: log.namespace,
                metadata: log.metadata,
            },
            Event::Metric(metric) => VrlTarget::Metric { metric, multi_value_tags },
            Event::Trace(trace) => VrlTarget::Trace {
                value: trace.value,
                metadata: trace.metadata,
            },
        }
    }

    /// The events this target yields after a successful run, in order.
    pub fn into_events(self) -> (r: Vec<Event>)
        ensures
            events_view(r@) =~= target_events_model(self@),
    {
        let ghost t = self@;
        match self {
            VrlTarget::LogEvent { value, namespace, metadata } => match value {
                Value::Array(elems) => {
                    let mut out: Vec<Event> = Vec::new();
                    let ghost full = value_seq_view(elems@);
                    proof {
                        crate::value::lemma_value_seq_view(elems@);
                    }
                    let mut i: usize = 0;
                    while i < elems.len()
                        invariant
                            i <= elems@.len(),
                            full == value_seq_view(elems@),
                            full.len() == elems@.len(),
                            forall|j: int| 0 <= j < elems@.len() ==> #[trigger] full[j]
                                == elems@[j]@,
                            out.len() == i,
                            forall|j: int| 0 <= j < i ==> #[trigger] out@[j]@ == EventModel::Log(
                                LogEventModel {
                                    value: wrapped_log_value_model(full[j]),
                                    namespace,
                                    metadata: metadata@,
                                },
                            ),
                        decreases elems@.len() - i,
                    {
                        let elem = elems[i].clone();
                        out.push(
                            Event::Log(
                                LogEvent {
                                    value: wrap_log_value(elem),
                                    namespace,
                                    metadata: metadata.clone(),
                                },
                            ),
                        );
                        i += 1;
                    }
                    proof {
                        assert(events_view(out@) =~= target_events_model(t));
                    }
                    out
                },
                other => {
                    let mut out: Vec<Event> = Vec::new();
                    out.push(
                        Event::Log(LogEvent { value: wrap_log_value(other), namespace, metadata }),
                    );
                    proof {
                        assert(events_view(out@) =~= target_events_model(t));
                    }
                    out
                },
            },
            VrlTarget::Metric { metric, .. } => {
                let mut out: Vec<Event> = Vec::new();
                out.push(Event::Metric(metric));
                proof {
                    assert(events_view(out@) =~= target_events_model(t));
                }
                out
            },
            VrlTarget::Trace { value, metadata } => match value {
                Value::Array(elems) => {
                    let mut out: Vec<Event> = Vec::new();
                    let ghost full = value_seq_view(elems@);
                    proof {
                        crate::value::lemma_value_seq_view(elems@);
                    }
                    let mut i: usize = 0;
                    while i < elems.len()
                        invariant
                            i <= elems@.len(),
                            full == value_seq_view(elems@),
                            full.len() == elems@.len(),
                            forall|j: int| 0 <= j < elems@.len() ==> #[trigger] full[j]
                                == elems@[j]@,
                            out.len() == i,
                            forall|j: int| 0 <= j < i ==> #[trigger] out@[j]@ == EventModel::Trace(
                                TraceEventModel {
                                    value: wrapped_log_value_model(full[j]),
                                    metadata: metadata@,
                                },
                            ),
                        decreases elems@.len() - i,
                    {
                        let elem = elems[i].clone();
                        out.push(
                            Event::Trace(
                                TraceEvent { value: wrap_log_value(elem), metadata: metadata.clone() },
                            ),
                        );
                        i += 1;
                    }
                    proof {
                        assert(events_view(out@) =~= target_events_model(t));
                    }
                    out
                },
                other => {
                    let mut out: Vec<Event> = Vec::new();
                    out.push(Event::Trace(TraceEvent { value: wrap_log_value(other), metadata }));
                    proof {
                        assert(events_view(out@) =~= target_events_model(t));
                    }
                    out
                },
            },
        }
    }
}

// -------------------------------------------------------------------------
// The output buffer: the events emitted for one inbound event.
// -------------------------------------------------------------------------

/// The models of a sequence of events.
pub open spec fn events_view(s: Seq<Event>) -> Seq<EventModel> {
    s.map_values(|e: Event| e@)
}

/// The per-call output buffer: events for the primary output and for the
/// dropped output, each in emission order.
#[derive(Debug)]
pub struct TransformOutputsBuf {
    pub primary: Vec<Event>,
    pub dropped: Vec<Event>,
}

impl TransformOutputsBuf {
    /// An empty buffer.
    pub fn new() -> (r: TransformOutputsBuf)
        ensures
            r.primary@.len() == 0,
            r.dropped@.len() == 0,
    {
        TransformOutputsBuf { primary: Vec::new(), dropped: Vec::new() }
    }
}

/// Stamps the event with the primary output's schema definition and pushes it
/// to the primary output.
pub fn push_default(
    event: Event,
    output: &mut TransformOutputsBuf,
    schema_definition: &Definition,
)
    ensures
        events_view(final(output).primary@) =~= events_view(old(output).primary@).push(
            stamp_model(event@, schema_definition@),
        ),
        final(output).dropped@ == old(output).dropped@,
{
    let mut event = event;
    event.set_schema_definition(schema_definition);
    output.primary.push(event);
}

/// Stamps the event with the dropped output's schema definition and pushes it
/// to the dropped output.
pub fn push_dropped(
    event: Event,
    output: &mut TransformOutputsBuf,
    schema_definition: &Definition,
)
    ensures
        events_view(final(output).dropped@) =~= events_view(old(output).dropped@).push(
            stamp_model(event@, schema_definition@),
        ),
        final(output).primary@ == old(output).primary@,
{
    let mut event = event;
    event.set_schema_definition(schema_definition);
    output.dropped.push(event);
}

} // verus!

// -------------------------------------------------------------------------
// The engine itself.
// -------------------------------------------------------------------------

verus! {

/// The script runtime behind the engine. The stage owns one runner per
/// instance; implementations run the compiled program against the target,
/// mutating it in place, and must clear any internal scratch state after
/// every run, success or failure, so that no state leaks between events.
pub trait VrlRunner {
    /// Runs the program against the target. The run may mutate the target
    /// arbitrarily within its event kind: it never turns one event kind into
    /// another and never moves a log event between namespaces.
    fn run(&mut self, target: &mut VrlTarget, program: &Program, timezone: &TimeZone) -> (r:
        Result<Value, Terminate>)
        ensures
            shape_preserved(old(target)@, final(target)@),
    ;
}

/// What the engine reads from the surrounding topology when it is built: the
/// component's identity, the schema definitions computed for its outputs at
/// build time, and the pipeline's global time zone.
#[derive(Debug)]
pub struct TransformContext {
    /// The component's identity, if it has one.
    pub key: Option<String>,
    /// The definitions computed for the primary output, one per upstream
    /// branch; the first is used to stamp outbound events.
    pub default_definitions: Vec<Definition>,
    /// The definitions computed for the dropped output, one per upstream
    /// branch; when empty, the primary output's definitions stand in.
    pub dropped_definitions: Vec<Definition>,
    /// The merged definition of every upstream branch, handed to the script
    /// compiler.
    pub merged_schema_definition: Definition,
    /// The pipeline's global time zone.
    pub timezone: TimeZone,
}

/// One configured instance of the stage, generic over the script runtime
/// driving it.
#[derive(Debug)]
pub struct Remap<Runner> where Runner: VrlRunner {
    pub component_key: Option<String>,
    pub program: Program,
    pub timezone: TimeZone,
    pub drop_on_error: bool,
    pub drop_on_abort: bool,
    pub reroute_dropped: bool,
    pub default_schema_definition: Definition,
    pub dropped_schema_definition: Definition,
    pub runner: Runner,
    pub metric_tag_values: MetricTagValues,
}

/// The engine's immutable configuration: everything its per-event decisions
/// depend on. The runner's scratch state is deliberately not part of it.
#[verifier::ext_equal]
pub ghost struct RemapModel {
    pub component_key: Option<Seq<char>>,
    pub program: Program,
    pub drop_on_error: bool,
    pub drop_on_abort: bool,
    pub reroute_dropped: bool,
    pub default_schema_definition: DefinitionModel,
    pub dropped_schema_definition: DefinitionModel,
    pub multi_value_tags: bool,
}

impl<Runner: VrlRunner> Remap<Runner> {
    /// The engine's immutable configuration.
    pub open spec fn model(self) -> RemapModel {
        RemapModel {
            component_key: match self.component_key {
                Some(k) => Some(k@),
                None => None,
            },
            program: self.program,
            drop_on_error: self.drop_on_error,
            drop_on_abort: self.drop_on_abort,
            reroute_dropped: self.reroute_dropped,
            default_schema_definition: self.default_schema_definition@,
            dropped_schema_definition: self.dropped_schema_definition@,
            multi_value_tags: self.metric_tag_values == MetricTagValues::Full,
        }
    }
}

// -------------------------------------------------------------------------
// The dispatch decisions, as functions of the configuration, the inbound
// event, and the run's outcome.
// -------------------------------------------------------------------------

/// Whether the engine preserves a pre-mutation copy of the inbound event:
/// exactly when some failure mode the program can reach would still need the
/// original event, either to forward it or to reroute it.
pub open spec fn preserves_original(m: RemapModel) -> bool {
    let forward_on_error = !m.drop_on_error || m.reroute_dropped;
    let forward_on_abort = !m.drop_on_abort || m.reroute_dropped;
    (m.program.fallible && forward_on_error) || (m.program.abortable && forward_on_abort)
}

/// The text extracted from a fault for the diagnostic payload: the last
/// annotation the script's author wrote, or the fault's default string form
/// if there is none.
pub open spec fn last_user_message(notes: Seq<NoteModel>) -> Option<Seq<char>>
    decreases notes.len(),
{
    if notes.len() == 0 {
        None
    } else {
        match notes.last() {
            NoteModel::UserErrorMessage(s) => Some(s),
            _ => last_user_message(notes.drop_last()),
        }
    }
}

/// The message the diagnostic payload carries for a fault.
pub open spec fn extracted_message_model(e: ExpressionErrorModel) -> Seq<char> {
    match last_user_message(e.notes) {
        Some(s) => s,
        None => e.message,
    }
}

/// The diagnostic payload attached to a rerouted event.
pub open spec fn dropped_data_model(
    component_key: Option<Seq<char>>,
    reason: Seq<char>,
    e: ExpressionErrorModel,
) -> ValueModel {
    let id = match component_key {
        Some(k) => ValueModel::Bytes(k),
        None => ValueModel::Null,
    };
    ValueModel::Object(
        seq![
            ("reason"@, ValueModel::Bytes(reason)),
            ("message"@, ValueModel::Bytes(extracted_message_model(e))),
            ("component_id"@, id),
            ("component_type"@, ValueModel::Bytes("remap"@)),
            ("component_kind"@, ValueModel::Bytes("transform"@)),
        ],
    )
}

/// The event annotated with the diagnostic payload, at the location its kind
/// and namespace call for: legacy logs nest it under the `metadata.dropped`
/// body field; structured-metadata logs write it under the reserved
/// `vector.dropped` metadata root; traces take the raw payload at the
/// top-level `metadata` body field; metrics flatten each payload field but
/// the message into a tag.
pub open spec fn annotate_model(
    e: EventModel,
    reason: Seq<char>,
    err: ExpressionErrorModel,
    component_key: Option<Seq<char>>,
) -> EventModel {
    let payload = dropped_data_model(component_key, reason, err);
    match e {
        EventModel::Log(log) => match log.namespace {
            LogNamespace::Legacy => EventModel::Log(
                LogEventModel {
                    value: value_set_model(log.value, seq!["metadata"@, "dropped"@], payload),
                    ..log
                },
            ),
            LogNamespace::Vector => EventModel::Log(
                LogEventModel {
                    metadata: EventMetadataModel {
                        value: value_set_model(
                            log.metadata.value,
                            seq!["vector"@, "dropped"@],
                            payload,
                        ),
                        ..log.metadata
                    },
                    ..log
                },
            ),
        },
        EventModel::Metric(metric) => EventModel::Metric(
            MetricModel {
                tags: metric.tags.insert("metadata.dropped.reason"@, reason).insert(
                    "metadata.dropped.component_id"@,
                    match component_key {
                        Some(k) => k,
                        None => Seq::empty(),
                    },
                ).insert("metadata.dropped.component_type"@, "remap"@).insert(
                    "metadata.dropped.component_kind"@,
                    "transform"@,
                ),
                ..metric
            },
        ),
        EventModel::Trace(trace) => EventModel::Trace(
            TraceEventModel {
                value: value_set_model(trace.value, seq!["metadata"@], payload),
                ..trace
            },
        ),
    }
}

/// The events the engine pushes to the primary output for one inbound event,
/// given the run's outcome: on success, every event the target yields, in
/// order; on a failure whose policy forwards, the preserved original,
/// unmodified.
pub open spec fn primary_pushes(
    m: RemapModel,
    event: EventModel,
    t_after: VrlTargetModel,
    res: Result<ValueModel, TerminateModel>,
) -> Seq<EventModel> {
    match res {
        Ok(_) => target_events_model(t_after).map_values(
            |e: EventModel| stamp_model(e, m.default_schema_definition),
        ),
        Err(term) => {
            let drop = match term {
                TerminateModel::Abort(_) => m.drop_on_abort,
                TerminateModel::Error(_) => m.drop_on_error,
            };
            if preserves_original(m) && !drop {
                seq![stamp_model(event, m.default_schema_definition)]
            } else {
                Seq::empty()
            }
        },
    }
}

/// The events the engine pushes to the dropped output for one inbound event,
/// given the run's outcome: the annotated original exactly when the failure's
/// policy drops and rerouting is enabled.
pub open spec fn dropped_pushes(
    m: RemapModel,
    event: EventModel,
    t_after: VrlTargetModel,
    res: Result<ValueModel, TerminateModel>,
) -> Seq<EventModel> {
    match res {
        Ok(_) => Seq::empty(),
        Err(term) => {
            let (reason, err, drop) = match term {
                TerminateModel::Abort(e) => ("abort"@, e, m.drop_on_abort),
                TerminateModel::Error(e) => ("error"@, e, m.drop_on_error),
            };
            if preserves_original(m) && drop && m.reroute_dropped {
                seq![
                    stamp_model(
                        annotate_model(event, reason, err, m.component_key),
                        m.dropped_schema_definition,
                    ),
                ]
            } else {
                Seq::empty()
            }
        },
    }
}

/// What one call of the engine does to the output buffer: there is a run
/// outcome — a mutated target of the same shape, and a result — such that the
/// primary and dropped outputs grew by exactly the events that outcome calls
/// for.
pub open spec fn transform_outcome(
    m: RemapModel,
    event: EventModel,
    old_primary: Seq<EventModel>,
    old_dropped: Seq<EventModel>,
    new_primary: Seq<EventModel>,
    new_dropped: Seq<EventModel>,
    t_after: VrlTargetModel,
    res: Result<ValueModel, TerminateModel>,
) -> bool {
    &&& shape_preserved(target_of_model(event, m.multi_value_tags), t_after)
    &&& new_primary == old_primary + primary_pushes(m, event, t_after, res)
    &&& new_dropped == old_dropped + dropped_pushes(m, event, t_after, res)
}

} // verus!

verus! {

/// The message extracted from a fault: the last annotation the script's
/// author wrote, or the fault's default string form if there is none.
fn extract_message(error: &ExpressionError) -> (r: String)
    ensures
        r@ == extracted_message_model(error@),
{
    let ghost notes = error@.notes;
    proof {
        assert(notes.subrange(0, 0) =~= Seq::<NoteModel>::empty());
    }
    let mut found: Option<String> = None;
    let mut i: usize = 0;
    while i < error.notes.len()
        invariant
            i <= error.notes@.len(),
            notes == error@.notes,
            notes.len() == error.notes@.len(),
            forall|j: int| 0 <= j < error.notes@.len() ==> #[trigger] notes[j]
                == error.notes@[j]@,
            match found {
                Some(s) => last_user_message(notes.subrange(0, i as int)) == Some(s@),
                None => last_user_message(notes.subrange(0, i as int)) is None,
            },
        decreases error.notes@.len() - i,
    {
        let ghost pre = notes.subrange(0, i as int);
        let ghost cur = notes.subrange(0, i as int + 1);
        proof {
            assert(cur.drop_last() =~= pre);
            assert(cur.last() == notes[i as int]);
        }
        match &error.notes[i] {
            Note::UserErrorMessage(s) => {
                found = Some(s.clone());
            },
            Note::Other(_) => {},
        }
        i += 1;
    }
    proof {
        assert(notes.subrange(0, notes.len() as int) =~= notes);
    }
    match found {
        Some(s) => s,
        None => error.message.clone(),
    }
}

impl<Runner: VrlRunner> Remap<Runner> {
    /// Builds an instance of the stage from its configuration, the build-time
    /// context, and the compiled program's runtime face.
    ///
    /// The first definition computed for the primary output stamps outbound
    /// events; the dropped output's first definition stamps rerouted events,
    /// falling back to the primary output's where none was computed. A branch
    /// about which nothing is known gets the definition that admits anything.
    pub fn new(config: RemapConfig, context: &TransformContext, program: Program, runner: Runner)
        -> (r: Remap<Runner>)
        ensures
            r.model() == (RemapModel {
                component_key: match context.key {
                    Some(k) => Some(k@),
                    None => None,
                },
                program,
                drop_on_error: config.drop_on_error,
                drop_on_abort: config.drop_on_abort,
                reroute_dropped: config.reroute_dropped,
                default_schema_definition: if context.default_definitions@.len() > 0 {
                    context.default_definitions@[0]@
                } else {
                    r.model().default_schema_definition
                },
                dropped_schema_definition: if context.dropped_definitions@.len() > 0 {
                    context.dropped_definitions@[0]@
                } else if context.default_definitions@.len() > 0 {
                    context.default_definitions@[0]@
                } else {
                    r.model().dropped_schema_definition
                },
                multi_value_tags: config.metric_tag_values == MetricTagValues::Full,
            }),
            r.timezone == match config.timezone {
                Some(tz) => tz,
                None => context.timezone,
            },
    {
        let default_schema_definition = if context.default_definitions.len() > 0 {
            context.default_definitions[0].clone()
        } else {
            Definition::any()
        };
        let dropped_schema_definition = if context.dropped_definitions.len() > 0 {
            context.dropped_definitions[0].clone()
        } else if context.default_definitions.len() > 0 {
            context.default_definitions[0].clone()
        } else {
            Definition::any()
        };
        let component_key = match &context.key {
            Some(k) => Some(k.clone()),
            None => None,
        };
        Remap {
            component_key,
            program,
            timezone: match config.timezone {
                Some(tz) => tz,
                None => context.timezone.clone(),
            },
            drop_on_error: config.drop_on_error,
            drop_on_abort: config.drop_on_abort,
            reroute_dropped: config.reroute_dropped,
            default_schema_definition,
            dropped_schema_definition,
            runner,
            metric_tag_values: config.metric_tag_values,
        }
    }

    /// The diagnostic payload for an event dropped for the given reason.
    pub fn dropped_data(&self, reason: &str, error: &ExpressionError) -> (r: Value)
        ensures
            r@ == dropped_data_model(self.model().component_key, reason@, error@),
    {
        let message = extract_message(error);
        let mut entries: Vec<(String, Value)> = Vec::new();
        entries.push(("reason".to_owned(), Value::Bytes(reason.to_owned())));
        entries.push(("message".to_owned(), Value::Bytes(message)));
        entries.push(
            (
                "component_id".to_owned(),
                match &self.component_key {
                    Some(k) => Value::Bytes(k.clone()),
                    None => Value::Null,
                },
            ),
        );
        entries.push(("component_type".to_owned(), Value::Bytes("remap".to_owned())));
        entries.push(("component_kind".to_owned(), Value::Bytes("transform".to_owned())));
        let ghost snap = entries@;
        let r = Value::Object(entries);
        proof {
            crate::value::lemma_value_entries_view(snap);
            let id = (match self.model().component_key {
                Some(k) => ValueModel::Bytes(k),
                None => ValueModel::Null,
            });
            assert(value_entries_view(snap) =~= seq![
                ("reason"@, ValueModel::Bytes(reason@)),
                ("message"@, ValueModel::Bytes(extracted_message_model(error@))),
                ("component_id"@, id),
                ("component_type"@, ValueModel::Bytes("remap"@)),
                ("component_kind"@, ValueModel::Bytes("transform"@)),
            ]);
            assert(r@ == ValueModel::Object(value_entries_view(snap)));
            assert(r@ == dropped_data_model(self.model().component_key, reason@, error@));
        }
        r
    }

    /// Attaches the diagnostic payload to an event about to be rerouted, at
    /// the location its kind and namespace call for.
    pub fn annotate_dropped(&self, event: &mut Event, reason: &str, error: &ExpressionError)
        requires
            old(event).wf(),
        ensures
            final(event)@ == annotate_model(
                old(event)@,
                reason@,
                error@,
                self.model().component_key,
            ),
            final(event).wf(),
    {
        match event {
            Event::Log(log) => {
                let payload = self.dropped_data(reason, error);
                match log.namespace {
                    LogNamespace::Legacy => {
                        let mut path: Vec<String> = Vec::new();
                        path.push("metadata".to_owned());
                        path.push("dropped".to_owned());
                        proof {
                            assert(crate::kind::path_view(path@) =~= seq!["metadata"@, "dropped"@]);
                        }
                        let updated = log.value.with_field_at_path(&path, payload);
                        log.value = updated;
                    },
                    LogNamespace::Vector => {
                        let mut path: Vec<String> = Vec::new();
                        path.push("vector".to_owned());
                        path.push("dropped".to_owned());
                        proof {
                            assert(crate::kind::path_view(path@) =~= seq!["vector"@, "dropped"@]);
                        }
                        let updated = log.metadata.value.with_field_at_path(&path, payload);
                        log.metadata.value = updated;
                    },
                }
            },
            Event::Metric(metric) => {
                metric.replace_tag("metadata.dropped.reason".to_owned(), reason.to_owned());
                metric.replace_tag(
                    "metadata.dropped.component_id".to_owned(),
                    match &self.component_key {
                        Some(k) => k.clone(),
                        None => String::new(),
                    },
                );
                metric.replace_tag(
                    "metadata.dropped.component_type".to_owned(),
                    "remap".to_owned(),
                );
                metric.replace_tag(
                    "metadata.dropped.component_kind".to_owned(),
                    "transform".to_owned(),
                );
            },
            Event::Trace(trace) => {
                let payload = self.dropped_data(reason, error);
                let mut path: Vec<String> = Vec::new();
                path.push("metadata".to_owned());
                proof {
                    assert(crate::kind::path_view(path@) =~= seq!["metadata"@]);
                }
                let updated = trace.value.with_field_at_path(&path, payload);
                trace.value = updated;
            },
        }
    }

    /// Runs the script against one inbound event and pushes the results: on
    /// success, every produced event to the primary output, in order; on a
    /// failure whose policy forwards, the preserved pre-mutation original to
    /// the primary output, unmodified; on a failure whose policy drops with
    /// rerouting enabled, the annotated original to the dropped output; and
    /// nothing otherwise. A pre-mutation copy is kept only when some failure
    /// mode the program can reach would still need the original.
    #[verifier::rlimit(100)]
    pub fn transform(&mut self, event: Event, output: &mut TransformOutputsBuf)
        requires
            event.wf(),
        ensures
            final(self).model() == old(self).model(),
            exists|t_after: VrlTargetModel, res: Result<ValueModel, TerminateModel>|
                #[trigger] transform_outcome(
                    old(self).model(),
                    event@,
                    events_view(old(output).primary@),
                    events_view(old(output).dropped@),
                    events_view(final(output).primary@),
                    events_view(final(output).dropped@),
                    t_after,
                    res,
                ),
    {
        let ghost m = self.model();
        let ghost event_model = event@;
        let ghost primary0 = events_view(output.primary@);
        let ghost dropped0 = events_view(output.dropped@);
        let forward_on_error = !self.drop_on_error || self.reroute_dropped;
        let forward_on_abort = !self.drop_on_abort || self.reroute_dropped;
        let original_event = if (self.program.fallible && forward_on_error) || (
        self.program.abortable && forward_on_abort) {
            Some(event.clone())
        } else {
            None
        };
        let multi_value_tags = match self.metric_tag_values {
            MetricTagValues::Single => false,
            MetricTagValues::Full => true,
        };
        let mut target = VrlTarget::new(event, multi_value_tags);
        let result = self.runner.run(&mut target, &self.program, &self.timezone);
        let ghost t_after = target@;
        let ghost res_model: Result<ValueModel, TerminateModel> = match result {
            Ok(ref v) => Ok(v@),
            Err(ref t) => Err(t@),
        };
        match result {
            Ok(_) => {
                let mut events = target.into_events();
                let ghost produced = target_events_model(t_after);
                let ghost stamped = produced.map_values(
                    |e: EventModel| stamp_model(e, m.default_schema_definition),
                );
                let ghost total = events@.len() as int;
                proof {
                    assert(events_view(events@).len() == events@.len());
                    assert(stamped.subrange(0, 0) =~= Seq::<EventModel>::empty());
                }
                while events.len() > 0
                    invariant
                        events@.len() <= total,
                        produced.len() == total,
                        forall|j: int| 0 <= j < events@.len() ==> #[trigger] events@[j]@
                            == produced[total - events@.len() + j],
                        self.default_schema_definition@ == m.default_schema_definition,
                        events_view(output.primary@) =~= primary0 + stamped.subrange(
                            0,
                            total - events@.len(),
                        ),
                        output.dropped@ == old(output).dropped@,
                        stamped.len() == total,
                        forall|j: int| 0 <= j < total ==> #[trigger] stamped[j] == stamp_model(
                            produced[j],
                            m.default_schema_definition,
                        ),
                    decreases events@.len(),
                {
                    let ghost done = total - events@.len();
                    let ev = events.remove(0);
                    push_default(ev, output, &self.default_schema_definition);
                    proof {
                        assert(events_view(output.primary@) =~= primary0 + stamped.subrange(
                            0,
                            done + 1,
                        ));
                    }
                }
                proof {
                    assert(stamped.subrange(0, total) =~= stamped);
                    assert(events_view(output.primary@) =~= primary0 + primary_pushes(
                        m,
                        event_model,
                        t_after,
                        res_model,
                    ));
                    assert(events_view(output.dropped@) =~= dropped0 + dropped_pushes(
                        m,
                        event_model,
                        t_after,
                        res_model,
                    ));
                    assert(transform_outcome(
                        m,
                        event_model,
                        primary0,
                        dropped0,
                        events_view(output.primary@),
                        events_view(output.dropped@),
                        t_after,
                        res_model,
                    ));
                }
            },
            Err(terminate) => {
                let (is_abort, error) = match terminate {
                    Terminate::Abort(e) => (true, e),
                    Terminate::Error(e) => (false, e),
                };
                let drop = if is_abort {
                    self.drop_on_abort
                } else {
                    self.drop_on_error
                };
                let reason: &str = if is_abort {
                    "abort"
                } else {
                    "error"
                };
                match original_event {
                    Some(mut preserved) => {
                        if !drop {
                            push_default(preserved, output, &self.default_schema_definition);
                        } else if self.reroute_dropped {
                            self.annotate_dropped(&mut preserved, reason, &error);
                            push_dropped(preserved, output, &self.dropped_schema_definition);
                        }
                    },
                    None => {},
                }
                proof {
                    assert(events_view(output.primary@) =~= primary0 + primary_pushes(
                        m,
                        event_model,
                        t_after,
                        res_model,
                    ));
                    assert(events_view(output.dropped@) =~= dropped0 + dropped_pushes(
                        m,
                        event_model,
                        t_after,
                        res_model,
                    ));
                    assert(transform_outcome(
                        m,
                        event_model,
                        primary0,
                        dropped0,
                        events_view(output.primary@),
                        events_view(output.dropped@),
                        t_after,
                        res_model,
                    ));
                }
            },
        }
    }
}

} // verus!

// -------------------------------------------------------------------------
// Laws of the dispatch state machine.
// -------------------------------------------------------------------------

verus! {

/// A run that mutates nothing and succeeds forwards the event itself: one
/// event on the primary output, stamped, its body unchanged aside from the
/// required wrapping — and exactly unchanged for a log or trace whose body is
/// an object, and for every metric — and nothing on the dropped output.
pub proof fn lemma_noop_preserves_event(
    m: RemapModel,
    event: EventModel,
    v: ValueModel,
)
    requires
        match event {
            EventModel::Log(log) => !(log.value is Array),
            EventModel::Trace(trace) => !(trace.value is Array),
            EventModel::Metric(_) => true,
        },
    ensures
        dropped_pushes(m, event, target_of_model(event, m.multi_value_tags), Ok(v)) =~= Seq::<
            EventModel,
        >::empty(),
        primary_pushes(m, event, target_of_model(event, m.multi_value_tags), Ok(v)).len() == 1,
        primary_pushes(m, event, target_of_model(event, m.multi_value_tags), Ok(v))[0] == (
        match event {
            EventModel::Log(log) => stamp_model(
                EventModel::Log(
                    LogEventModel { value: wrapped_log_value_model(log.value), ..log },
                ),
                m.default_schema_definition,
            ),
            EventModel::Metric(_) => stamp_model(event, m.default_schema_definition),
            EventModel::Trace(trace) => stamp_model(
                EventModel::Trace(
                    TraceEventModel { value: wrapped_log_value_model(trace.value), ..trace },
                ),
                m.default_schema_definition,
            ),
        }),
        (match event {
            EventModel::Log(log) => log.value is Object,
            EventModel::Trace(trace) => trace.value is Object,
            EventModel::Metric(_) => true,
        }) ==> primary_pushes(m, event, target_of_model(event, m.multi_value_tags), Ok(v))[0]
            == stamp_model(event, m.default_schema_definition),
{
    let t = target_of_model(event, m.multi_value_tags);
    let pushes = primary_pushes(m, event, t, Ok(v));
    match event {
        EventModel::Log(log) => {
            assert(target_events_model(t) =~= seq![
                EventModel::Log(LogEventModel { value: wrapped_log_value_model(log.value), ..log }),
            ]);
        },
        EventModel::Metric(metric) => {
            assert(target_events_model(t) =~= seq![EventModel::Metric(metric)]);
        },
        EventModel::Trace(trace) => {
            assert(target_events_model(t) =~= seq![
                EventModel::Trace(
                    TraceEventModel { value: wrapped_log_value_model(trace.value), ..trace },
                ),
            ]);
        },
    }
}

/// A successful run whose final log value is an array of `n` elements yields
/// exactly `n` events on the primary output, in the array's order, each the
/// corresponding element wrapped as a standalone event and stamped; the
/// dropped output receives nothing.
pub proof fn lemma_fan_out(
    m: RemapModel,
    event: EventModel,
    elems: Seq<ValueModel>,
    namespace: LogNamespace,
    metadata: EventMetadataModel,
    v: ValueModel,
)
    ensures
        primary_pushes(
            m,
            event,
            VrlTargetModel::LogEvent { value: ValueModel::Array(elems), namespace, metadata },
            Ok(v),
        ).len() == elems.len(),
        forall|i: int|
            0 <= i < elems.len() ==> #[trigger] primary_pushes(
                m,
                event,
                VrlTargetModel::LogEvent { value: ValueModel::Array(elems), namespace, metadata },
                Ok(v),
            )[i] == stamp_model(
                EventModel::Log(
                    LogEventModel {
                        value: wrapped_log_value_model(elems[i]),
                        namespace,
                        metadata,
                    },
                ),
                m.default_schema_definition,
            ),
        dropped_pushes(
            m,
            event,
            VrlTargetModel::LogEvent { value: ValueModel::Array(elems), namespace, metadata },
            Ok(v),
        ) =~= Seq::<EventModel>::empty(),
{
}

/// The drop-policy matrix for a failing run, quantified over both policy
/// switches and rerouting. For a run that ends in an error (and a program
/// whose errors are reachable), the primary output receives the original,
/// unmodified event precisely when `drop_on_error` is off; the dropped output
/// receives the annotated original precisely when `drop_on_error` and
/// rerouting are both on; otherwise the event vanishes. The same law holds
/// for an abort with `drop_on_abort`.
pub proof fn lemma_drop_policy(m: RemapModel, event: EventModel, t: VrlTargetModel, e: ExpressionErrorModel)
    ensures
        m.program.fallible ==> primary_pushes(m, event, t, Err(TerminateModel::Error(e))) =~= (
        if !m.drop_on_error {
            seq![stamp_model(event, m.default_schema_definition)]
        } else {
            Seq::<EventModel>::empty()
        }),
        m.program.fallible ==> dropped_pushes(m, event, t, Err(TerminateModel::Error(e))) =~= (
        if m.drop_on_error && m.reroute_dropped {
            seq![
                stamp_model(
                    annotate_model(event, "error"@, e, m.component_key),
                    m.dropped_schema_definition,
                ),
            ]
        } else {
            Seq::<EventModel>::empty()
        }),
        m.program.abortable ==> primary_pushes(m, event, t, Err(TerminateModel::Abort(e))) =~= (
        if !m.drop_on_abort {
            seq![stamp_model(event, m.default_schema_definition)]
        } else {
            Seq::<EventModel>::empty()
        }),
        m.program.abortable ==> dropped_pushes(m, event, t, Err(TerminateModel::Abort(e))) =~= (
        if m.drop_on_abort && m.reroute_dropped {
            seq![
                stamp_model(
                    annotate_model(event, "abort"@, e, m.component_key),
                    m.dropped_schema_definition,
                ),
            ]
        } else {
            Seq::<EventModel>::empty()
        }),
{
}

/// No state leaks between events: after processing any earlier event, the
/// engine's configuration is what it was, so a later event's results are
/// exactly what they would be against a fresh engine — they depend only on
/// the configuration, the later event itself, and its own run outcome.
pub proof fn lemma_no_cross_event_state(
    m: RemapModel,
    a: EventModel,
    b: EventModel,
    p0: Seq<EventModel>,
    d0: Seq<EventModel>,
    p1: Seq<EventModel>,
    d1: Seq<EventModel>,
    p2: Seq<EventModel>,
    d2: Seq<EventModel>,
    ta: VrlTargetModel,
    ra: Result<ValueModel, TerminateModel>,
    tb: VrlTargetModel,
    rb: Result<ValueModel, TerminateModel>,
)
    requires
        transform_outcome(m, a, p0, d0, p1, d1, ta, ra),
        transform_outcome(m, b, p1, d1, p2, d2, tb, rb),
    ensures
        p2 =~= p0 + primary_pushes(m, a, ta, ra) + primary_pushes(m, b, tb, rb),
        d2 =~= d0 + dropped_pushes(m, a, ta, ra) + dropped_pushes(m, b, tb, rb),
        p2.subrange(p1.len() as int, p2.len() as int) =~= primary_pushes(m, b, tb, rb),
        d2.subrange(d1.len() as int, d2.len() as int) =~= dropped_pushes(m, b, tb, rb),
{
}

/// Diagnostic message precedence: the payload's message is the last
/// annotation the script's author wrote, and only in the absence of any such
/// annotation the fault's default string form.
pub proof fn lemma_message_precedence(e: ExpressionErrorModel, j: int)
    requires
        0 <= j < e.notes.len(),
        e.notes[j] is UserErrorMessage,
        forall|l: int| j < l < e.notes.len() ==> !((#[trigger] e.notes[l]) is UserErrorMessage),
    ensures
        extracted_message_model(e) == e.notes[j]->UserErrorMessage_0,
    decreases e.notes.len(),
{
    if j == e.notes.len() - 1 {
    } else {
        let t = e.notes.drop_last();
        assert(t[j] == e.notes[j]);
        assert forall|l: int| j < l < t.len() implies !((#[trigger] t[l]) is UserErrorMessage) by {
            assert(t[l] == e.notes[l]);
        }
        lemma_message_precedence(ExpressionErrorModel { message: e.message, notes: t }, j);
        assert(!(e.notes.last() is UserErrorMessage));
    }
}

/// A fault without any author-written annotation falls back to its default
/// string form.
pub proof fn lemma_message_fallback(e: ExpressionErrorModel)
    requires
        forall|l: int| 0 <= l < e.notes.len() ==> !((#[trigger] e.notes[l]) is UserErrorMessage),
    ensures
        extracted_message_model(e) == e.message,
    decreases e.notes.len(),
{
    if e.notes.len() > 0 {
        let t = e.notes.drop_last();
        assert forall|l: int| 0 <= l < t.len() implies !((#[trigger] t[l]) is UserErrorMessage) by {
            assert(t[l] == e.notes[l]);
        }
        lemma_message_fallback(ExpressionErrorModel { message: e.message, notes: t });
        assert(!(e.notes.last() is UserErrorMessage));
    }
}

} // verus!
