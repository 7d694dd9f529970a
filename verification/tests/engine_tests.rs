//! Tests of the per-event dispatch state machine.

use remap::engine::{
    push_default, push_dropped, ExpressionError, Note, Program, Remap, Terminate,
    TransformContext, TransformOutputsBuf, VrlRunner, VrlTarget,
};
use remap::event::{Event, EventMetadata, LogEvent, Metric};
use remap::kind::Kind;
use remap::schema::{Definition, FieldPath, LogNamespace};
use remap::value::Value;
use remap::{MetricTagValues, RemapConfig, TimeZone};

fn test_default_schema_definition() -> Definition {
    Definition::empty_legacy_namespace().with_event_field(
        &FieldPath::field("a default field".to_owned()),
        Kind::integer().or_bytes(),
        Some("default".to_owned()),
    )
}

fn test_dropped_schema_definition() -> Definition {
    Definition::empty_legacy_namespace().with_event_field(
        &FieldPath::field("a dropped field".to_owned()),
        Kind::boolean().or_null(),
        Some("dropped".to_owned()),
    )
}

fn plain_metadata() -> EventMetadata {
    EventMetadata {
        value: Value::Object(vec![]),
        schema_definition: Definition::any(),
    }
}

fn log_from(message: &str) -> Event {
    Event::Log(LogEvent {
        value: Value::Object(vec![(
            "message".to_owned(),
            Value::Bytes(message.to_owned()),
        )]),
        namespace: LogNamespace::Legacy,
        metadata: plain_metadata(),
    })
}

fn log_insert(event: &mut Event, field: &str, value: Value) {
    match event {
        Event::Log(log) => match &mut log.value {
            Value::Object(entries) => entries.push((field.to_owned(), value)),
            _ => panic!("log body must be an object"),
        },
        _ => panic!("expected a log event"),
    }
}

fn get_field(event: &Event, field: &str) -> Option<Value> {
    let entries = match event {
        Event::Log(log) => match &log.value {
            Value::Object(entries) => entries,
            _ => panic!("log body must be an object"),
        },
        _ => panic!("expected a log event"),
    };
    entries
        .iter()
        .find(|e| e.0 == field)
        .map(|e| e.1.clone())
}

fn get_field_string(event: &Event, field: &str) -> String {
    match get_field(event, field) {
        Some(Value::Bytes(s)) => s,
        other => panic!("expected a string field, got {:?}", other),
    }
}

fn schema_definition_of(event: &Event) -> &Definition {
    match event {
        Event::Log(log) => &log.metadata.schema_definition,
        Event::Metric(metric) => &metric.metadata.schema_definition,
        Event::Trace(trace) => &trace.metadata.schema_definition,
    }
}

/// A runner standing in for the script runtime: applies a fixed list of field
/// assignments to log targets, then ends with the configured outcome. Sources
/// resolve against the target at run time, so nothing persists between runs.
struct TestRunner {
    /// Assignments `target = source field` applied in order; a missing source
    /// resolves to null, never to an earlier event's value.
    copies: Vec<(String, String)>,
    /// Literal assignments applied in order.
    sets: Vec<(String, Value)>,
    /// Replaces the whole body when present.
    replace_body: Option<Value>,
    /// The run's outcome.
    outcome: Result<Value, Terminate>,
}

impl TestRunner {
    fn ok(sets: Vec<(&str, Value)>) -> TestRunner {
        TestRunner {
            copies: vec![],
            sets: sets
                .into_iter()
                .map(|(k, v)| (k.to_owned(), v))
                .collect(),
            replace_body: None,
            outcome: Ok(Value::Null),
        }
    }

    fn failing(outcome: Terminate, sets: Vec<(&str, Value)>) -> TestRunner {
        TestRunner {
            copies: vec![],
            sets: sets
                .into_iter()
                .map(|(k, v)| (k.to_owned(), v))
                .collect(),
            replace_body: None,
            outcome: Err(outcome),
        }
    }
}

impl Clone for TestRunner {
    fn clone(&self) -> TestRunner {
        TestRunner {
            copies: self.copies.clone(),
            sets: self.sets.clone(),
            replace_body: self.replace_body.clone(),
            outcome: match &self.outcome {
                Ok(v) => Ok(v.clone()),
                Err(Terminate::Abort(e)) => Err(Terminate::Abort(ExpressionError {
                    message: e.message.clone(),
                    notes: vec![],
                })),
                Err(Terminate::Error(e)) => Err(Terminate::Error(ExpressionError {
                    message: e.message.clone(),
                    notes: vec![],
                })),
            },
        }
    }
}

impl VrlRunner for TestRunner {
    fn run(
        &mut self,
        target: &mut VrlTarget,
        _program: &Program,
        _timezone: &TimeZone,
    ) -> Result<Value, Terminate> {
        if let VrlTarget::LogEvent { value, .. } = target {
            if let Value::Object(entries) = value {
                let copies = self.copies.clone();
                for (to, from) in copies {
                    let found = entries
                        .iter()
                        .find(|e| e.0 == from)
                        .map(|e| e.1.clone())
                        .unwrap_or(Value::Null);
                    entries.push((to, found));
                }
                for (to, v) in self.sets.clone() {
                    entries.push((to, v));
                }
            }
            if let Some(body) = self.replace_body.clone() {
                *value = body;
            }
        }
        match &self.outcome {
            Ok(v) => Ok(v.clone()),
            Err(Terminate::Abort(e)) => Err(Terminate::Abort(ExpressionError {
                message: e.message.clone(),
                notes: e
                    .notes
                    .iter()
                    .map(|n| match n {
                        Note::UserErrorMessage(s) => Note::UserErrorMessage(s.clone()),
                        Note::Other(s) => Note::Other(s.clone()),
                    })
                    .collect(),
            })),
            Err(Terminate::Error(e)) => Err(Terminate::Error(ExpressionError {
                message: e.message.clone(),
                notes: e
                    .notes
                    .iter()
                    .map(|n| match n {
                        Note::UserErrorMessage(s) => Note::UserErrorMessage(s.clone()),
                        Note::Other(s) => Note::Other(s.clone()),
                    })
                    .collect(),
            })),
        }
    }
}

fn context() -> TransformContext {
    TransformContext {
        key: None,
        default_definitions: vec![test_default_schema_definition()],
        dropped_definitions: vec![test_dropped_schema_definition()],
        merged_schema_definition: Definition::any(),
        timezone: TimeZone::Local,
    }
}

fn remap(config: RemapConfig, program: Program, runner: TestRunner) -> Remap<TestRunner> {
    Remap::new(config, &context(), program, runner)
}

fn collect_outputs(tform: &mut Remap<TestRunner>, event: Event) -> TransformOutputsBuf {
    let mut outputs = TransformOutputsBuf::new();
    tform.transform(event, &mut outputs);
    outputs
}

fn transform_one(tform: &mut Remap<TestRunner>, event: Event) -> Option<Event> {
    let mut out = collect_outputs(tform, event);
    assert_eq!(0, out.dropped.len());
    assert!(out.primary.len() <= 1);
    out.primary.pop()
}

fn transform_one_fallible(
    tform: &mut Remap<TestRunner>,
    event: Event,
) -> Result<Event, Event> {
    let mut out = collect_outputs(tform, event);
    assert!(out.primary.len() < 2);
    assert!(out.dropped.len() < 2);
    match (out.primary.pop(), out.dropped.pop()) {
        (Some(good), None) => Ok(good),
        (None, Some(bad)) => Err(bad),
        (a, b) => panic!("expected output xor error output, got {:?} and {:?}", a, b),
    }
}

#[test]
fn check_remap_adds() {
    let event = {
        let mut event = log_from("augment me");
        log_insert(&mut event, "copy_from", Value::Bytes("buz".to_owned()));
        event
    };

    let conf = RemapConfig {
        source: Some(
            r#"  .foo = "bar"
  .bar = "baz"
  .copy = .copy_from
"#
            .to_owned(),
        ),
        file: None,
        drop_on_error: true,
        drop_on_abort: false,
        ..Default::default()
    };
    let runner = TestRunner {
        copies: vec![("copy".to_owned(), "copy_from".to_owned())],
        sets: vec![
            ("foo".to_owned(), Value::Bytes("bar".to_owned())),
            ("bar".to_owned(), Value::Bytes("baz".to_owned())),
        ],
        replace_body: None,
        outcome: Ok(Value::Null),
    };
    let mut tform = remap(conf, Program { fallible: false, abortable: false }, runner);
    let result = transform_one(&mut tform, event).unwrap();
    assert_eq!(get_field_string(&result, "message"), "augment me");
    assert_eq!(get_field_string(&result, "copy_from"), "buz");
    assert_eq!(get_field_string(&result, "foo"), "bar");
    assert_eq!(get_field_string(&result, "bar"), "baz");
    assert_eq!(get_field_string(&result, "copy"), "buz");

    assert_eq!(
        schema_definition_of(&result),
        &test_default_schema_definition()
    );
}

#[test]
fn check_remap_doesnt_share_state_between_events() {
    let conf = RemapConfig {
        source: Some(".foo = .sentinel".to_owned()),
        file: None,
        drop_on_error: true,
        drop_on_abort: false,
        ..Default::default()
    };
    let runner = TestRunner {
        copies: vec![("foo".to_owned(), "sentinel".to_owned())],
        sets: vec![],
        replace_body: None,
        outcome: Ok(Value::Null),
    };
    let mut tform = remap(conf, Program { fallible: false, abortable: false }, runner);

    let event1 = {
        let mut event1 = log_from("event1");
        log_insert(&mut event1, "sentinel", Value::Bytes("bar".to_owned()));
        event1
    };
    let result1 = transform_one(&mut tform, event1).unwrap();
    assert_eq!(get_field_string(&result1, "message"), "event1");
    assert_eq!(get_field_string(&result1, "foo"), "bar");
    assert_eq!(
        schema_definition_of(&result1),
        &test_default_schema_definition()
    );

    let event2 = log_from("event2");
    let result2 = transform_one(&mut tform, event2).unwrap();
    assert_eq!(get_field_string(&result2, "message"), "event2");
    assert_eq!(get_field(&result2, "foo"), Some(Value::Null));
    assert_eq!(
        schema_definition_of(&result2),
        &test_default_schema_definition()
    );
}

#[test]
fn check_remap_emits_multiple() {
    let event = {
        let mut event = log_from("augment me");
        log_insert(
            &mut event,
            "events",
            Value::Array(vec![
                Value::Object(vec![("message".to_owned(), Value::Bytes("foo".to_owned()))]),
                Value::Object(vec![("message".to_owned(), Value::Bytes("bar".to_owned()))]),
            ]),
        );
        event
    };

    let conf = RemapConfig {
        source: Some(". = .events".to_owned()),
        file: None,
        drop_on_error: true,
        drop_on_abort: false,
        ..Default::default()
    };
    let runner = TestRunner {
        copies: vec![],
        sets: vec![],
        replace_body: Some(Value::Array(vec![
            Value::Object(vec![("message".to_owned(), Value::Bytes("foo".to_owned()))]),
            Value::Object(vec![("message".to_owned(), Value::Bytes("bar".to_owned()))]),
        ])),
        outcome: Ok(Value::Null),
    };
    let mut tform = remap(conf, Program { fallible: false, abortable: false }, runner);

    let out = collect_outputs(&mut tform, event);
    assert_eq!(2, out.primary.len());

    let r = &out.primary[0];
    assert_eq!(get_field_string(r, "message"), "foo");
    assert_eq!(schema_definition_of(r), &test_default_schema_definition());
    let r = &out.primary[1];
    assert_eq!(get_field_string(r, "message"), "bar");
    assert_eq!(schema_definition_of(r), &test_default_schema_definition());
}

fn failing_error() -> Terminate {
    Terminate::Error(ExpressionError {
        message: "function call error for \"int\" at (24:38): unable to coerce value".to_owned(),
        notes: vec![],
    })
}

#[test]
fn check_remap_error() {
    let event = {
        let mut event = log_from("augment me");
        log_insert(&mut event, "bar", Value::Bytes("is a string".to_owned()));
        event
    };

    let conf = RemapConfig {
        source: Some(".foo = \"foo\"\n.not_an_int = int!(.bar)\n.baz = 12\n".to_owned()),
        file: None,
        drop_on_error: false,
        drop_on_abort: false,
        ..Default::default()
    };
    // The script fails midway: `foo` was already set when the error fires,
    // and `baz` is never reached; the unmodified original is forwarded.
    let runner = TestRunner::failing(
        failing_error(),
        vec![("foo", Value::Bytes("foo".to_owned()))],
    );
    let mut tform = remap(conf, Program { fallible: true, abortable: false }, runner);

    let event = transform_one(&mut tform, event).unwrap();

    assert_eq!(
        get_field(&event, "bar"),
        Some(Value::Bytes("is a string".to_owned()))
    );
    assert!(get_field(&event, "foo").is_none());
    assert!(get_field(&event, "baz").is_none());
}

#[test]
fn check_remap_error_drop() {
    let event = {
        let mut event = log_from("augment me");
        log_insert(&mut event, "bar", Value::Bytes("is a string".to_owned()));
        event
    };

    let conf = RemapConfig {
        source: Some(".foo = \"foo\"\n.not_an_int = int!(.bar)\n.baz = 12\n".to_owned()),
        file: None,
        drop_on_error: true,
        drop_on_abort: false,
        ..Default::default()
    };
    let runner = TestRunner::failing(
        failing_error(),
        vec![("foo", Value::Bytes("foo".to_owned()))],
    );
    let mut tform = remap(conf, Program { fallible: true, abortable: false }, runner);

    assert!(transform_one(&mut tform, event).is_none())
}

#[test]
fn check_remap_error_infallible() {
    let event = {
        let mut event = log_from("augment me");
        log_insert(&mut event, "bar", Value::Bytes("is a string".to_owned()));
        event
    };

    let conf = RemapConfig {
        source: Some(".foo = \"foo\"\n.baz = 12\n".to_owned()),
        file: None,
        drop_on_error: false,
        drop_on_abort: false,
        ..Default::default()
    };
    let runner = TestRunner::ok(vec![
        ("foo", Value::Bytes("foo".to_owned())),
        ("baz", Value::Integer(12)),
    ]);
    let mut tform = remap(conf, Program { fallible: false, abortable: false }, runner);

    let event = transform_one(&mut tform, event).unwrap();

    assert_eq!(get_field(&event, "foo"), Some(Value::Bytes("foo".to_owned())));
    assert_eq!(
        get_field(&event, "bar"),
        Some(Value::Bytes("is a string".to_owned()))
    );
    assert_eq!(get_field(&event, "baz"), Some(Value::Integer(12)));
}

#[test]
fn check_remap_abort() {
    let event = {
        let mut event = log_from("augment me");
        log_insert(&mut event, "bar", Value::Bytes("is a string".to_owned()));
        event
    };

    let conf = RemapConfig {
        source: Some(".foo = \"foo\"\nabort\n.baz = 12\n".to_owned()),
        file: None,
        drop_on_error: false,
        drop_on_abort: false,
        ..Default::default()
    };
    let runner = TestRunner::failing(
        Terminate::Abort(ExpressionError {
            message: "aborted".to_owned(),
            notes: vec![],
        }),
        vec![("foo", Value::Bytes("foo".to_owned()))],
    );
    let mut tform = remap(conf, Program { fallible: false, abortable: true }, runner);

    let event = transform_one(&mut tform, event).unwrap();

    assert_eq!(
        get_field(&event, "bar"),
        Some(Value::Bytes("is a string".to_owned()))
    );
    assert!(get_field(&event, "foo").is_none());
    assert!(get_field(&event, "baz").is_none());
}

#[test]
fn check_remap_abort_drop() {
    let event = {
        let mut event = log_from("augment me");
        log_insert(&mut event, "bar", Value::Bytes("is a string".to_owned()));
        event
    };

    let conf = RemapConfig {
        source: Some(".foo = \"foo\"\nabort\n.baz = 12\n".to_owned()),
        file: None,
        drop_on_error: false,
        drop_on_abort: true,
        ..Default::default()
    };
    let runner = TestRunner::failing(
        Terminate::Abort(ExpressionError {
            message: "aborted".to_owned(),
            notes: vec![],
        }),
        vec![("foo", Value::Bytes("foo".to_owned()))],
    );
    let mut tform = remap(conf, Program { fallible: false, abortable: true }, runner);

    assert!(transform_one(&mut tform, event).is_none())
}

fn dropped_payload(event: &Event) -> Value {
    match get_field(event, "metadata") {
        Some(Value::Object(entries)) => entries
            .iter()
            .find(|e| e.0 == "dropped")
            .map(|e| e.1.clone())
            .expect("annotation present"),
        other => panic!("expected annotated metadata, got {:?}", other),
    }
}

fn payload_field(payload: &Value, field: &str) -> String {
    match payload {
        Value::Object(entries) => match entries.iter().find(|e| e.0 == field) {
            Some((_, Value::Bytes(s))) => s.clone(),
            other => panic!("expected a string payload field, got {:?}", other),
        },
        other => panic!("expected a payload object, got {:?}", other),
    }
}

fn reroute_config() -> RemapConfig {
    RemapConfig {
        source: Some("abort \"custom message here\"".to_owned()),
        drop_on_error: true,
        drop_on_abort: true,
        reroute_dropped: true,
        ..Default::default()
    }
}

fn reroute_context() -> TransformContext {
    TransformContext {
        key: Some("remapper".to_owned()),
        default_definitions: vec![test_default_schema_definition()],
        dropped_definitions: vec![test_dropped_schema_definition()],
        merged_schema_definition: Definition::any(),
        timezone: TimeZone::Local,
    }
}

#[test]
fn check_remap_branching_abort_with_message() {
    let error = {
        let mut event = log_from("hello");
        log_insert(&mut event, "hello", Value::Integer(42));
        event
    };
    let runner = TestRunner::failing(
        Terminate::Abort(ExpressionError {
            message: "custom message here".to_owned(),
            notes: vec![],
        }),
        vec![],
    );
    let mut tform = Remap::new(
        reroute_config(),
        &reroute_context(),
        Program { fallible: false, abortable: true },
        runner,
    );

    let output = transform_one_fallible(&mut tform, error).unwrap_err();
    assert_eq!(get_field(&output, "hello"), Some(Value::Integer(42)));
    assert!(get_field(&output, "foo").is_none());
    let payload = dropped_payload(&output);
    assert_eq!(payload_field(&payload, "reason"), "abort");
    assert_eq!(payload_field(&payload, "message"), "custom message here");
    assert_eq!(payload_field(&payload, "component_id"), "remapper");
    assert_eq!(payload_field(&payload, "component_type"), "remap");
    assert_eq!(payload_field(&payload, "component_kind"), "transform");
    assert_eq!(
        schema_definition_of(&output),
        &test_dropped_schema_definition()
    );
}

#[test]
fn check_remap_branching_assert_with_message() {
    // A user-authored assertion message takes precedence over the fault's
    // default rendering; without one, the default rendering is used.
    let config = RemapConfig {
        source: Some(
            "assert_eq!(.hello, 0, \"custom message here\")\nassert_eq!(.hello, 1)\n".to_owned(),
        ),
        drop_on_error: true,
        drop_on_abort: true,
        reroute_dropped: true,
        ..Default::default()
    };

    let custom = {
        let mut event = log_from("hello");
        log_insert(&mut event, "hello", Value::Integer(42));
        event
    };
    let runner = TestRunner::failing(
        Terminate::Error(ExpressionError {
            message: "function call error for \"assert_eq\" at (0:44): assertion failed"
                .to_owned(),
            notes: vec![
                Note::Other("some other note".to_owned()),
                Note::UserErrorMessage("custom message here".to_owned()),
            ],
        }),
        vec![],
    );
    let mut tform = Remap::new(
        config.clone(),
        &reroute_context(),
        Program { fallible: true, abortable: false },
        runner,
    );
    let output = transform_one_fallible(&mut tform, custom).unwrap_err();
    let payload = dropped_payload(&output);
    assert_eq!(payload_field(&payload, "reason"), "error");
    assert_eq!(payload_field(&payload, "message"), "custom message here");

    let plain = {
        let mut event = log_from("hello");
        log_insert(&mut event, "hello", Value::Integer(0));
        event
    };
    let runner = TestRunner::failing(
        Terminate::Error(ExpressionError {
            message:
                "function call error for \"assert_eq\" at (45:66): assertion failed: 0 == 1"
                    .to_owned(),
            notes: vec![],
        }),
        vec![],
    );
    let mut tform = Remap::new(
        config,
        &reroute_context(),
        Program { fallible: true, abortable: false },
        runner,
    );
    let output = transform_one_fallible(&mut tform, plain).unwrap_err();
    let payload = dropped_payload(&output);
    assert_eq!(payload_field(&payload, "reason"), "error");
    assert_eq!(
        payload_field(&payload, "message"),
        "function call error for \"assert_eq\" at (45:66): assertion failed: 0 == 1"
    );
}

#[test]
fn check_remap_branching_disabled() {
    // With rerouting disabled, dropped events vanish: neither output receives
    // anything.
    let config = RemapConfig {
        source: Some("abort".to_owned()),
        drop_on_error: true,
        drop_on_abort: true,
        reroute_dropped: false,
        ..Default::default()
    };
    let runner = TestRunner::failing(
        Terminate::Abort(ExpressionError {
            message: "aborted".to_owned(),
            notes: vec![],
        }),
        vec![],
    );
    let mut tform = Remap::new(
        config,
        &reroute_context(),
        Program { fallible: true, abortable: true },
        runner,
    );

    let abort = log_from("goodbye");
    let out = collect_outputs(&mut tform, abort);
    assert!(out.primary.is_empty());
    assert!(out.dropped.is_empty());
}

#[test]
fn metric_dropped_annotation_flattens_tags() {
    // A dropped metric takes the payload as flattened tags; the message is
    // deliberately omitted from metric tags.
    let metric = Event::Metric(Metric {
        name: "counter".to_owned(),
        tags: vec![("hello".to_owned(), "goodbye".to_owned())],
        metadata: plain_metadata(),
    });
    let runner = TestRunner::failing(
        Terminate::Abort(ExpressionError {
            message: "aborted".to_owned(),
            notes: vec![],
        }),
        vec![],
    );
    let mut tform = Remap::new(
        reroute_config(),
        &reroute_context(),
        Program { fallible: false, abortable: true },
        runner,
    );
    let output = transform_one_fallible(&mut tform, metric).unwrap_err();
    match output {
        Event::Metric(m) => {
            assert_eq!(
                m.tags,
                vec![
                    ("hello".to_owned(), "goodbye".to_owned()),
                    ("metadata.dropped.reason".to_owned(), "abort".to_owned()),
                    (
                        "metadata.dropped.component_id".to_owned(),
                        "remapper".to_owned()
                    ),
                    (
                        "metadata.dropped.component_type".to_owned(),
                        "remap".to_owned()
                    ),
                    (
                        "metadata.dropped.component_kind".to_owned(),
                        "transform".to_owned()
                    ),
                ]
            );
            assert_eq!(m.metadata.schema_definition, test_dropped_schema_definition());
        },
        other => panic!("expected a metric, got {:?}", other),
    }
}

#[test]
fn noop_script_preserves_event() {
    // A script that performs no mutation leaves the event unchanged, aside
    // from the stamped definition, for all three event kinds.
    let conf = RemapConfig {
        source: Some("".to_owned()),
        ..Default::default()
    };
    let program = Program { fallible: false, abortable: false };

    let log = log_from("untouched");
    let mut tform = remap(conf.clone(), program, TestRunner::ok(vec![]));
    let result = transform_one(&mut tform, log.clone()).unwrap();
    assert_eq!(get_field_string(&result, "message"), "untouched");
    assert_eq!(
        schema_definition_of(&result),
        &test_default_schema_definition()
    );
    match (&result, &log) {
        (Event::Log(got), Event::Log(want)) => assert_eq!(got.value, want.value),
        _ => panic!("expected log events"),
    }

    let metric = Event::Metric(Metric {
        name: "counter".to_owned(),
        tags: vec![("host".to_owned(), "zoobub".to_owned())],
        metadata: plain_metadata(),
    });
    let mut tform = remap(conf.clone(), program, TestRunner::ok(vec![]));
    let result = transform_one(&mut tform, metric.clone()).unwrap();
    match (&result, &metric) {
        (Event::Metric(got), Event::Metric(want)) => {
            assert_eq!(got.name, want.name);
            assert_eq!(got.tags, want.tags);
        },
        _ => panic!("expected metric events"),
    }

    let trace = Event::Trace(remap::TraceEvent {
        value: Value::Object(vec![("span".to_owned(), Value::Integer(7))]),
        metadata: plain_metadata(),
    });
    let mut tform = remap(conf, program, TestRunner::ok(vec![]));
    let result = transform_one(&mut tform, trace.clone()).unwrap();
    match (&result, &trace) {
        (Event::Trace(got), Event::Trace(want)) => assert_eq!(got.value, want.value),
        _ => panic!("expected trace events"),
    }
}

#[test]
fn scalar_result_wrapped_into_message() {
    // A script whose result is a plain string emits an object with the string
    // under the `message` field.
    let conf = RemapConfig {
        source: Some(". = \"fish\" ".to_owned()),
        ..Default::default()
    };
    let runner = TestRunner {
        copies: vec![],
        sets: vec![],
        replace_body: Some(Value::Bytes("fish".to_owned())),
        outcome: Ok(Value::Null),
    };
    let mut tform = remap(conf, Program { fallible: false, abortable: false }, runner);
    let result = transform_one(&mut tform, log_from("plain")).unwrap();
    assert_eq!(
        get_field(&result, "message"),
        Some(Value::Bytes("fish".to_owned()))
    );
}

#[test]
fn push_helpers_stamp_definitions() {
    let mut buf = TransformOutputsBuf::new();
    push_default(log_from("a"), &mut buf, &test_default_schema_definition());
    push_dropped(log_from("b"), &mut buf, &test_dropped_schema_definition());
    assert_eq!(buf.primary.len(), 1);
    assert_eq!(buf.dropped.len(), 1);
    assert_eq!(
        schema_definition_of(&buf.primary[0]),
        &test_default_schema_definition()
    );
    assert_eq!(
        schema_definition_of(&buf.dropped[0]),
        &test_dropped_schema_definition()
    );
}

#[test]
fn metric_tag_values_modes_accepted() {
    // Both tag exposure modes build an engine; the mode is handed through to
    // the script target untouched.
    let conf = RemapConfig {
        source: Some("".to_owned()),
        metric_tag_values: MetricTagValues::Full,
        ..Default::default()
    };
    let mut tform = remap(
        conf,
        Program { fallible: false, abortable: false },
        TestRunner::ok(vec![]),
    );
    let metric = Event::Metric(Metric {
        name: "counter".to_owned(),
        tags: vec![],
        metadata: plain_metadata(),
    });
    assert!(transform_one(&mut tform, metric).is_some());
}
