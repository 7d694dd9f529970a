//! Tests of the configuration checks and the build-time schema projection.

use remap::kind::{Kind, KindArray, KindObject};
use remap::projection::{merge_array_definitions, move_field_definitions_into_message, FinalTypeState};
use remap::schema::{Definition, FieldPath, LogNamespace};
use remap::{BuildError, RemapConfig};

fn legacy() -> Vec<LogNamespace> {
    vec![LogNamespace::Legacy]
}

fn obj(entries: Vec<(&str, Kind)>) -> Kind {
    Kind::object(KindObject::from_entries(
        entries.into_iter().map(|(k, v)| (k.to_owned(), v)).collect(),
    ))
}

#[test]
fn config_missing_source_and_file() {
    let config = RemapConfig {
        source: None,
        file: None,
        ..Default::default()
    };

    let err = config.source_input().unwrap_err().message();
    assert_eq!(
        &err,
        "must provide exactly one of `source` or `file` configuration"
    )
}

#[test]
fn config_both_source_and_file() {
    let config = RemapConfig {
        source: Some("".to_owned()),
        file: Some("".to_owned()),
        ..Default::default()
    };

    let err = config.source_input().unwrap_err().message();
    assert_eq!(
        &err,
        "must provide exactly one of `source` or `file` configuration"
    )
}

#[test]
fn config_file_error_messages() {
    let open = BuildError::FileOpenFailed {
        path: "./prog.vrl".to_owned(),
        error: "no such file".to_owned(),
    };
    assert_eq!(
        open.message(),
        "Could not open vrl program ./prog.vrl: no such file"
    );
    let read = BuildError::FileReadFailed {
        path: "./prog.vrl".to_owned(),
        error: "bad bytes".to_owned(),
    };
    assert_eq!(
        read.message(),
        "Could not read vrl program ./prog.vrl: bad bytes"
    );
}

#[test]
fn test_field_definitions_in_message() {
    let definition = Definition::new_with_default_metadata(Kind::bytes(), &legacy());
    assert_eq!(
        Definition::new_with_default_metadata(obj(vec![("message", Kind::bytes())]), &legacy()),
        move_field_definitions_into_message(definition)
    );

    // Test when a message field already exists.
    let definition = Definition::new_with_default_metadata(
        obj(vec![("message", Kind::integer())]).or_bytes(),
        &legacy(),
    );
    assert_eq!(
        Definition::new_with_default_metadata(
            obj(vec![("message", Kind::bytes().or_integer())]),
            &legacy()
        ),
        move_field_definitions_into_message(definition)
    )
}

#[test]
fn test_merged_array_definitions_simple() {
    // Merging the array definitions where the definition is simple,
    // containing only one possible shape for every element of the array.
    let object = obj(vec![("carrot", Kind::bytes()), ("potato", Kind::integer())]);

    let kind = Kind::array(KindArray::from_unknown(object));

    let definition = Definition::new_with_default_metadata(kind, &legacy());

    let kind = obj(vec![("carrot", Kind::bytes()), ("potato", Kind::integer())]);

    let wanted = Definition::new_with_default_metadata(kind, &legacy());
    let merged = merge_array_definitions(definition);

    assert_eq!(wanted, merged);
}

#[test]
fn test_merged_array_definitions_complex() {
    // Merging the array definitions where the definition is fairly complex,
    // containing multiple different possible shapes.
    let object = obj(vec![("carrot", Kind::bytes()), ("potato", Kind::integer())]);

    let array = KindArray::from_elems(vec![
        Kind::integer(),
        Kind::boolean(),
        obj(vec![("peas", Kind::bytes())]),
    ]);

    let mut kind = Kind::bytes();
    kind.object = object.object;
    kind.array = Some(array);

    let definition = Definition::new_with_default_metadata(kind, &legacy());

    let mut wanted_kind = Kind::bytes();
    wanted_kind.integer = true;
    wanted_kind.boolean = true;
    wanted_kind.object = obj(vec![
        ("carrot", Kind::bytes().or_undefined()),
        ("potato", Kind::integer().or_undefined()),
        ("peas", Kind::bytes().or_undefined()),
    ])
    .object;

    let wanted = Definition::new_with_default_metadata(wanted_kind, &legacy());
    let merged = merge_array_definitions(definition);

    assert_eq!(wanted, merged);
}

#[test]
fn array_in_schema_flattening() {
    // A result kind that is an array of objects projects to the union of the
    // element shapes at the top level, not an array shape; a field absent at
    // some index also admits absence.
    let kind = Kind::array(KindArray::from_elems(vec![
        obj(vec![("a", Kind::integer())]),
        obj(vec![("b", Kind::boolean())]),
    ]));
    let definition = Definition::new_with_default_metadata(kind, &legacy());
    let flattened = merge_array_definitions(definition);
    let wanted = obj(vec![
        ("a", Kind::integer().or_undefined()),
        ("b", Kind::boolean().or_undefined()),
    ]);
    assert_eq!(flattened.event_kind, wanted);
    assert!(flattened.event_kind.array.is_none());
}

#[test]
fn test_combined_transforms_simple() {
    // Passing the definitions produced by one stage as the input of a second
    // stage still produces the correct final definition, without running any
    // event: stage one sets `thing`, stage two copies it into `thang`.
    let transform1 = RemapConfig {
        source: Some(r#".thing = "potato""#.to_owned()),
        ..Default::default()
    };
    let transform2 = RemapConfig {
        source: Some(".thang = .thing".to_owned()),
        ..Default::default()
    };

    // The final type state the compiler reports for stage one.
    let state1 = FinalTypeState {
        event_kind: Definition::default_legacy_namespace()
            .event_kind
            .with_field_at_path(&vec!["thing".to_owned()], Kind::bytes()),
        metadata_kind: Kind::any_object(),
        meanings: vec![],
    };

    let inputs1 = vec![("in".to_owned(), Definition::default_legacy_namespace())];
    let outputs1 = transform1.outputs(Some(&state1), &inputs1);

    assert_eq!(outputs1.len(), 1);
    assert_eq!(outputs1[0].port, None);
    assert_eq!(
        outputs1[0].definitions,
        vec![(
            "in".to_owned(),
            Definition::default_legacy_namespace().with_event_field(
                &FieldPath::field("thing".to_owned()),
                Kind::bytes(),
                None
            ),
        )]
    );

    // The final type state the compiler reports for stage two, given stage
    // one's output definition as its input.
    let stage1_out = outputs1[0].definitions[0].1.clone();
    let state2 = FinalTypeState {
        event_kind: stage1_out
            .event_kind
            .with_field_at_path(&vec!["thang".to_owned()], Kind::bytes()),
        metadata_kind: Kind::any_object(),
        meanings: vec![],
    };

    let inputs2 = vec![("in1".to_owned(), stage1_out)];
    let outputs2 = transform2.outputs(Some(&state2), &inputs2);

    assert_eq!(
        outputs2[0].definitions,
        vec![(
            "in1".to_owned(),
            Definition::default_legacy_namespace()
                .with_event_field(&FieldPath::field("thing".to_owned()), Kind::bytes(), None)
                .with_event_field(&FieldPath::field("thang".to_owned()), Kind::bytes(), None),
        )]
    );
}

#[test]
fn test_transform_abort() {
    // An abort does not change the type definition.
    let transform1 = RemapConfig {
        source: Some(r#"abort"#.to_owned()),
        ..Default::default()
    };

    let input = Definition::new_with_default_metadata(Kind::any_object(), &legacy());
    let state = FinalTypeState {
        event_kind: Kind::any_object(),
        metadata_kind: Kind::any_object(),
        meanings: vec![],
    };

    let outputs1 = transform1.outputs(Some(&state), &vec![("in".to_owned(), input.clone())]);

    assert_eq!(outputs1.len(), 1);
    assert_eq!(outputs1[0].definitions, vec![("in".to_owned(), input)]);
}

#[test]
fn test_error_outputs() {
    // Even when the script fails to compile, the stage still exposes the
    // correct output ports.
    let transform1 = RemapConfig {
        source: Some(r#". |= get_enrichment_table_record("carrot", {"id": .id})"#.to_owned()),
        reroute_dropped: true,
        ..Default::default()
    };

    let input = Definition::new_with_default_metadata(Kind::any_object(), &legacy());
    let outputs1 = transform1.outputs(None, &vec![("in".to_owned(), input)]);

    let ports: Vec<Option<String>> = outputs1.into_iter().map(|o| o.port).collect();
    assert!(ports.contains(&None));
    assert!(ports.contains(&Some("dropped".to_owned())));
    assert_eq!(ports.len(), 2);
}

#[test]
fn test_non_object_events() {
    // A script whose result is a plain string projects to an object whose
    // `message` field holds that string.
    let transform1 = RemapConfig {
        source: Some(r#". = "fish" "#.to_owned()),
        ..Default::default()
    };

    let state = FinalTypeState {
        event_kind: Kind::bytes(),
        metadata_kind: Kind::any_object(),
        meanings: vec![],
    };
    let input = Definition::new_with_default_metadata(Kind::any_object(), &legacy());
    let outputs1 = transform1.outputs(Some(&state), &vec![("in".to_owned(), input)]);

    let wanted = Definition::new_with_default_metadata(obj(vec![("message", Kind::bytes())]), &legacy());
    assert_eq!(outputs1[0].definitions, vec![("in".to_owned(), wanted)]);
}

#[test]
fn compile_failure_projects_never() {
    // A program that failed to compile can never emit a value: every branch
    // maps to a `never` body, and the projection does not fail.
    let config = RemapConfig::default();
    let input = Definition::new_with_default_metadata(Kind::any_object(), &legacy());
    let outputs = config.outputs(None, &vec![("in".to_owned(), input)]);
    assert_eq!(outputs.len(), 1);
    assert!(outputs[0].definitions[0].1.event_kind.is_never());
}

#[test]
fn meaning_dropped_when_target_never() {
    // A meaning whose target field can no longer hold a value is dropped, not
    // retained; one whose target survives is copied forward.
    let config = RemapConfig::default();
    let input = Definition::new_with_default_metadata(Kind::any_object(), &legacy())
        .with_event_field(
            &FieldPath::field("kept".to_owned()),
            Kind::bytes(),
            Some("kept".to_owned()),
        )
        .with_event_field(
            &FieldPath::field("gone".to_owned()),
            Kind::bytes(),
            Some("gone".to_owned()),
        );
    // The script's final state keeps `kept` but loses `gone`.
    let state = FinalTypeState {
        event_kind: obj(vec![("kept", Kind::bytes())]),
        metadata_kind: Kind::any_object(),
        meanings: vec![],
    };
    let outputs = config.outputs(Some(&state), &vec![("in".to_owned(), input)]);
    let def = &outputs[0].definitions[0].1;
    let ids: Vec<String> = def.meanings.iter().map(|m| m.0.clone()).collect();
    assert!(ids.contains(&"kept".to_owned()));
    assert!(!ids.contains(&"gone".to_owned()));
}

#[test]
fn script_meaning_overrides_inherited() {
    // A meaning the script itself establishes overwrites a conflicting
    // inherited meaning for the same identifier.
    let config = RemapConfig::default();
    let input = Definition::new_with_default_metadata(Kind::any_object(), &legacy())
        .with_event_field(
            &FieldPath::field("old_home".to_owned()),
            Kind::bytes(),
            Some("message".to_owned()),
        );
    let state = FinalTypeState {
        event_kind: obj(vec![
            ("old_home", Kind::bytes()),
            ("new_home", Kind::bytes()),
        ]),
        metadata_kind: Kind::any_object(),
        meanings: vec![("message".to_owned(), FieldPath::field("new_home".to_owned()))],
    };
    let outputs = config.outputs(Some(&state), &vec![("in".to_owned(), input)]);
    let def = &outputs[0].definitions[0].1;
    let message: Vec<_> = def
        .meanings
        .iter()
        .filter(|m| m.0 == "message")
        .collect();
    assert_eq!(message.len(), 1);
    assert_eq!(message[0].1.segments, vec!["new_home".to_owned()]);
}

#[test]
fn dropped_output_payload_shape() {
    // The dropped output's definition carries the diagnostic payload fields
    // under the legacy `metadata` field, whatever the script does.
    let config = RemapConfig {
        reroute_dropped: true,
        ..Default::default()
    };
    let input = Definition::new_with_default_metadata(Kind::any_object(), &legacy());
    let outputs = config.outputs(None, &vec![("in".to_owned(), input)]);
    assert_eq!(outputs[1].port, Some("dropped".to_owned()));
    let def = &outputs[1].definitions[0].1;
    let metadata_kind = def
        .event_kind
        .at_path(&vec!["metadata".to_owned()]);
    let payload = metadata_kind.object.expect("metadata field must be an object");
    let names: Vec<String> = payload.known.iter().map(|e| e.0.clone()).collect();
    assert_eq!(
        names,
        vec![
            "reason".to_owned(),
            "message".to_owned(),
            "component_id".to_owned(),
            "component_type".to_owned(),
            "component_kind".to_owned(),
        ]
    );
}

#[test]
fn test_combined_transforms_unnest() {
    // Stage one fans an array field out into one event per element; stage two
    // reads a field of the element. The definitions still compose correctly
    // without running any event.
    let transform1 = RemapConfig {
        source: Some(
            ".thing = [{\"cabbage\": 32}, {\"parsnips\": 45}]\n. = unnest(.thing)\n".to_owned(),
        ),
        ..Default::default()
    };
    let transform2 = RemapConfig {
        source: Some(r#".thang = .thing.cabbage || "beetroot""#.to_owned()),
        ..Default::default()
    };

    // The final type state the compiler reports for stage one: an array of
    // the two fanned-out element shapes.
    let elem0 = Kind::any_object().with_field_at_path(
        &vec!["thing".to_owned()],
        obj(vec![("cabbage", Kind::integer())]),
    );
    let elem1 = Kind::any_object().with_field_at_path(
        &vec!["thing".to_owned()],
        obj(vec![("parsnips", Kind::integer())]),
    );
    let state1 = FinalTypeState {
        event_kind: Kind::array(KindArray::from_elems(vec![elem0, elem1])),
        metadata_kind: Kind::any_object(),
        meanings: vec![],
    };

    let input1 = Definition::new_with_default_metadata(Kind::any_object(), &legacy());
    let outputs1 = transform1.outputs(Some(&state1), &vec![("in".to_owned(), input1)]);

    let flattened_thing = obj(vec![
        ("cabbage", Kind::integer().or_undefined()),
        ("parsnips", Kind::integer().or_undefined()),
    ]);
    assert_eq!(
        outputs1[0].definitions,
        vec![(
            "in".to_owned(),
            Definition::new_with_default_metadata(Kind::any_object(), &legacy())
                .with_event_field(
                    &FieldPath::field("thing".to_owned()),
                    flattened_thing.clone(),
                    None
                ),
        )]
    );

    let stage1_out = outputs1[0].definitions[0].1.clone();
    let state2 = FinalTypeState {
        event_kind: stage1_out
            .event_kind
            .with_field_at_path(&vec!["thang".to_owned()], Kind::integer().or_null()),
        metadata_kind: Kind::any_object(),
        meanings: vec![],
    };
    let outputs2 = transform2.outputs(Some(&state2), &vec![("in1".to_owned(), stage1_out)]);

    assert_eq!(
        outputs2[0].definitions,
        vec![(
            "in1".to_owned(),
            Definition::new_with_default_metadata(Kind::any_object(), &legacy())
                .with_event_field(&FieldPath::field("thing".to_owned()), flattened_thing, None)
                .with_event_field(
                    &FieldPath::field("thang".to_owned()),
                    Kind::integer().or_null(),
                    None
                ),
        )]
    );
}
