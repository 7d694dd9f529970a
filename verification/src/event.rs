//! The event model: logs, metrics, and traces, the metadata the pipeline
//! attaches to them, and the script target an event is turned into while the
//! script runs.

use vstd::prelude::*;

use crate::schema::{Definition, DefinitionModel, LogNamespace};
use crate::value::{value_entries_view, Value, ValueModel};

verus! {

// -------------------------------------------------------------------------
// Metric tags: a set of named string values, modeled as a map.
// -------------------------------------------------------------------------

/// The models of a sequence of tag entries.
pub open spec fn tag_entries_view(s: Seq<(String, String)>) -> Seq<(Seq<char>, Seq<char>)> {
    s.map_values(|e: (String, String)| (e.0@, e.1@))
}

/// The map from tag name to value that a sequence of entries denotes; a later
/// entry for the same name wins.
pub open spec fn tags_map_model(s: Seq<(Seq<char>, Seq<char>)>) -> Map<Seq<char>, Seq<char>>
    decreases s.len(),
{
    if s.len() == 0 {
        Map::empty()
    } else {
        tags_map_model(s.drop_last()).insert(s.last().0, s.last().1)
    }
}

/// A name that no entry carries is not in the map.
pub proof fn lemma_tags_not_contains(s: Seq<(Seq<char>, Seq<char>)>, name: Seq<char>)
    requires
        forall|l: int| 0 <= l < s.len() ==> (#[trigger] s[l]).0 != name,
    ensures
        !tags_map_model(s).contains_key(name),
    decreases s.len(),
{
    if s.len() > 0 {
        let t = s.drop_last();
        assert forall|l: int| 0 <= l < t.len() implies (#[trigger] t[l]).0 != name by {
            assert(t[l] == s[l]);
        }
        lemma_tags_not_contains(t, name);
    }
}

/// Updating the entry at `j` in place updates the map, provided no later
/// entry repeats its name.
pub proof fn lemma_tags_update(s: Seq<(Seq<char>, Seq<char>)>, j: int, v: Seq<char>)
    requires
        0 <= j < s.len(),
        forall|l: int| j < l < s.len() ==> (#[trigger] s[l]).0 != s[j].0,
    ensures
        tags_map_model(s.update(j, (s[j].0, v))) =~= tags_map_model(s).insert(s[j].0, v),
    decreases s.len(),
{
    let s2 = s.update(j, (s[j].0, v));
    if j == s.len() - 1 {
        assert(s2.drop_last() =~= s.drop_last());
        assert(s2.last() == (s[j].0, v));
    } else {
        let t = s.drop_last();
        assert(t[j] == s[j]);
        assert forall|l: int| j < l < t.len() implies (#[trigger] t[l]).0 != t[j].0 by {
            assert(t[l] == s[l]);
        }
        lemma_tags_update(t, j, v);
        assert(s2.drop_last() =~= t.update(j, (s[j].0, v)));
        assert(s2.last() == s.last());
        assert(s.last().0 != s[j].0);
    }
}

// -------------------------------------------------------------------------
// Events and their metadata.
// -------------------------------------------------------------------------

/// The information the pipeline attaches to an event: a metadata value tree
/// (writable by the script under the structured-metadata namespace) and the
/// schema definition the event was stamped with.
#[derive(Debug, PartialEq)]
pub struct EventMetadata {
    pub value: Value,
    pub schema_definition: Definition,
}

/// Mathematical model of [`EventMetadata`].
#[verifier::ext_equal]
pub ghost struct EventMetadataModel {
    pub value: ValueModel,
    pub schema_definition: DefinitionModel,
}

impl View for EventMetadata {
    type V = EventMetadataModel;

    open spec fn view(&self) -> EventMetadataModel {
        EventMetadataModel { value: self.value@, schema_definition: self.schema_definition@ }
    }
}

impl Clone for EventMetadata {
    /// A deep copy: the copy has the same model as the original.
    fn clone(&self) -> (r: EventMetadata)
        ensures
            r@ == self@,
            self.schema_definition.wf() ==> r.schema_definition.wf(),
    {
        EventMetadata {
            value: self.value.clone(),
            schema_definition: self.schema_definition.clone(),
        }
    }
}

/// A log event: a body value and the namespace convention it follows.
#[derive(Debug, PartialEq)]
pub struct LogEvent {
    pub value: Value,
    pub namespace: LogNamespace,
    pub metadata: EventMetadata,
}

/// Mathematical model of a [`LogEvent`].
#[verifier::ext_equal]
pub ghost struct LogEventModel {
    pub value: ValueModel,
    pub namespace: LogNamespace,
    pub metadata: EventMetadataModel,
}

impl View for LogEvent {
    type V = LogEventModel;

    open spec fn view(&self) -> LogEventModel {
        LogEventModel { value: self.value@, namespace: self.namespace, metadata: self.metadata@ }
    }
}

impl Clone for LogEvent {
    /// A deep copy: the copy has the same model as the original.
    fn clone(&self) -> (r: LogEvent)
        ensures
            r@ == self@,
    {
        LogEvent {
            value: self.value.clone(),
            namespace: self.namespace,
            metadata: self.metadata.clone(),
        }
    }
}

/// A metric event: a name and a set of tags. The numeric sample itself is
/// opaque to this stage and stays with the surrounding program.
#[derive(Debug, PartialEq)]
pub struct Metric {
    pub name: String,
    pub tags: Vec<(String, String)>,
    pub metadata: EventMetadata,
}

/// Mathematical model of a [`Metric`]; the tags are a map from name to value.
#[verifier::ext_equal]
pub ghost struct MetricModel {
    pub name: Seq<char>,
    pub tags: Map<Seq<char>, Seq<char>>,
    pub metadata: EventMetadataModel,
}

impl View for Metric {
    type V = MetricModel;

    open spec fn view(&self) -> MetricModel {
        MetricModel {
            name: self.name@,
            tags: tags_map_model(tag_entries_view(self.tags@)),
            metadata: self.metadata@,
        }
    }
}

impl Metric {
    /// Each tag name appears at most once.
    pub open spec fn wf(self) -> bool {
        forall|i: int, j: int|
            0 <= i < j < self.tags@.len() ==> (#[trigger] self.tags@[i]).0@ != (
            #[trigger] self.tags@[j]).0@
    }

    /// Sets the tag `name` to `value`, replacing any existing value.
    pub fn replace_tag(&mut self, name: String, value: String)
        requires
            old(self).wf(),
        ensures
            final(self)@ == (MetricModel {
                tags: old(self)@.tags.insert(name@, value@),
                ..old(self)@
            }),
            final(self).wf(),
    {
        let ghost pre = tag_entries_view(self.tags@);
        let mut i: usize = 0;
        let mut found: Option<usize> = None;
        while i < self.tags.len()
            invariant
                i <= self.tags@.len(),
                match found {
                    Some(f) => f < i && self.tags@[f as int].0@ == name@ && forall|l: int|
                        f < l < self.tags@.len() ==> (#[trigger] self.tags@[l]).0@ != name@
                            || l <= i - 1 && self.tags@[l].0@ != name@,
                    None => forall|l: int| 0 <= l < i ==> (#[trigger] self.tags@[l]).0@ != name@,
                },
                old(self).wf(),
                *self == *old(self),
            decreases self.tags@.len() - i,
        {
            if found.is_none() {
                if self.tags[i].0 == name {
                    found = Some(i);
                }
            }
            i += 1;
        }
        match found {
            Some(j) => {
                proof {
                    assert forall|l: int|
                        (j as int) < l < pre.len() implies (#[trigger] pre[l]).0 != pre[
                        j as int
                    ].0 by {
                        assert(pre[l].0 == self.tags@[l].0@);
                        assert(pre[j as int].0 == self.tags@[j as int].0@);
                    }
                    lemma_tags_update(pre, j as int, value@);
                }
                self.tags[j] = (name, value);
                proof {
                    assert(tag_entries_view(self.tags@) =~= pre.update(
                        j as int,
                        (pre[j as int].0, value@),
                    ));
                }
            },
            None => {
                self.tags.push((name, value));
                proof {
                    assert(tag_entries_view(self.tags@).drop_last() =~= pre);
                    assert(tag_entries_view(self.tags@).last() == (name@, value@));
                }
            },
        }
    }
}

impl Clone for Metric {
    /// A deep copy: the copy has the same model as the original, and is well
    /// formed whenever the original is.
    fn clone(&self) -> (r: Metric)
        ensures
            r@ == self@,
            self.wf() ==> r.wf(),
    {
        let mut tags: Vec<(String, String)> = Vec::new();
        let mut i: usize = 0;
        while i < self.tags.len()
            invariant
                i <= self.tags@.len(),
                tags.len() == i,
                forall|j: int|
                    0 <= j < i ==> (#[trigger] tags@[j]).0@ == self.tags@[j].0@ && tags@[j].1@
                        == self.tags@[j].1@,
            decreases self.tags@.len() - i,
        {
            let entry = &self.tags[i];
            tags.push((entry.0.clone(), entry.1.clone()));
            i += 1;
        }
        let r = Metric { name: self.name.clone(), tags, metadata: self.metadata.clone() };
        proof {
            assert(tag_entries_view(r.tags@) =~= tag_entries_view(self.tags@));
            assert(r@ =~= self@);
        }
        r
    }
}

/// A trace event: a body value.
#[derive(Debug, PartialEq)]
pub struct TraceEvent {
    pub value: Value,
    pub metadata: EventMetadata,
}

/// Mathematical model of a [`TraceEvent`].
#[verifier::ext_equal]
pub ghost struct TraceEventModel {
    pub value: ValueModel,
    pub metadata: EventMetadataModel,
}

impl View for TraceEvent {
    type V = TraceEventModel;

    open spec fn view(&self) -> TraceEventModel {
        TraceEventModel { value: self.value@, metadata: self.metadata@ }
    }
}

impl Clone for TraceEvent {
    /// A deep copy: the copy has the same model as the original.
    fn clone(&self) -> (r: TraceEvent)
        ensures
            r@ == self@,
    {
        TraceEvent { value: self.value.clone(), metadata: self.metadata.clone() }
    }
}

/// One event flowing through the stage: a log, a metric, or a trace.
#[derive(Debug, PartialEq)]
pub enum Event {
    Log(LogEvent),
    Metric(Metric),
    Trace(TraceEvent),
}

/// Mathematical model of an [`Event`].
#[verifier::ext_equal]
pub ghost enum EventModel {
    Log(LogEventModel),
    Metric(MetricModel),
    Trace(TraceEventModel),
}

impl View for Event {
    type V = EventModel;

    open spec fn view(&self) -> EventModel {
        match self {
            Event::Log(log) => EventModel::Log(log@),
            Event::Metric(metric) => EventModel::Metric(metric@),
            Event::Trace(trace) => EventModel::Trace(trace@),
        }
    }
}

impl Event {
    /// A metric's tag names are unique; logs and traces carry no such
    /// obligation.
    pub open spec fn wf(self) -> bool {
        match self {
            Event::Metric(metric) => metric.wf(),
            _ => true,
        }
    }

    /// Stamps the event with the given schema definition.
    pub fn set_schema_definition(&mut self, definition: &Definition)
        ensures
            final(self)@ == stamp_model(old(self)@, definition@),
            old(self).wf() ==> final(self).wf(),
    {
        match self {
            Event::Log(log) => {
                log.metadata.schema_definition = definition.clone();
            },
            Event::Metric(metric) => {
                metric.metadata.schema_definition = definition.clone();
            },
            Event::Trace(trace) => {
                trace.metadata.schema_definition = definition.clone();
            },
        }
    }
}

impl Clone for Event {
    /// A deep copy: the copy has the same model as the original, and is well
    /// formed whenever the original is.
    fn clone(&self) -> (r: Event)
        ensures
            r@ == self@,
            self.wf() ==> r.wf(),
    {
        match self {
            Event::Log(log) => Event::Log(log.clone()),
            Event::Metric(metric) => Event::Metric(metric.clone()),
            Event::Trace(trace) => Event::Trace(trace.clone()),
        }
    }
}

/// The event stamped with the given schema definition.
pub open spec fn stamp_model(e: EventModel, d: DefinitionModel) -> EventModel {
    match e {
        EventModel::Log(log) => EventModel::Log(
            LogEventModel {
                metadata: EventMetadataModel { schema_definition: d, ..log.metadata },
                ..log
            },
        ),
        EventModel::Metric(metric) => EventModel::Metric(
            MetricModel {
                metadata: EventMetadataModel { schema_definition: d, ..metric.metadata },
                ..metric
            },
        ),
        EventModel::Trace(trace) => EventModel::Trace(
            TraceEventModel {
                metadata: EventMetadataModel { schema_definition: d, ..trace.metadata },
                ..trace
            },
        ),
    }
}

} // verus!
