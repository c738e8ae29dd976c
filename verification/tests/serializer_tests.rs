use daktronics_singular_ui::json::to_json;
use daktronics_singular_ui::mapping::{MapError, Mapping, MappingItem};
use daktronics_singular_ui::profile::ProfileV2CompositionMapping;
use daktronics_singular_ui::serializer::serialize_mappings;
use daktronics_singular_ui::transform::Transformation;
use daktronics_singular_ui::value::{Record, Value};

fn item(source: &str, t: Transformation, dest: &str) -> MappingItem {
    MappingItem {
        enabled: true,
        source_field: source.to_string(),
        transformation: t,
        destination_field: dest.to_string(),
    }
}

fn target(name: &str, items: Vec<MappingItem>, gate: Option<&str>) -> ProfileV2CompositionMapping {
    ProfileV2CompositionMapping {
        subcomp_name: name.to_string(),
        mapping: Mapping { items },
        enabled_checkbox_name: gate.map(|g| g.to_string()),
    }
}

fn source() -> Value {
    let mut rec = Record::new();
    rec.insert("clock".to_string(), Value::Str("1:02.3".to_string()));
    rec.insert("home".to_string(), Value::Number(42));
    Value::Object(rec)
}

#[test]
fn envelope_holds_one_entry_per_target_plus_timestamp() {
    let targets = vec![
        target(
            "scorebug",
            vec![
                item("clock", Transformation::TimeMinutes, "min"),
                item("clock", Transformation::TimeSeconds, "sec"),
            ],
            None,
        ),
        target("ticker", vec![item("home", Transformation::AssertNumber, "homeScore")], None),
    ];
    let env = serialize_mappings(&targets, &source(), false, Some(1700000000000)).unwrap();
    assert_eq!(
        to_json(&env),
        "{\"__TIMESTAMP\":1700000000000,\"scorebug\":{\"min\":1,\"sec\":2},\"ticker\":{\"homeScore\":42}}"
    );
}

#[test]
fn envelope_without_timestamp_has_no_timestamp_key() {
    let targets = vec![target("t", vec![item("home", Transformation::NoTransform, "h")], None)];
    let env = serialize_mappings(&targets, &source(), false, None).unwrap();
    assert_eq!(to_json(&env), "{\"t\":{\"h\":42}}");
}

#[test]
fn envelope_entries_match_standalone_mapping_runs() {
    let t1 = target("a", vec![item("clock", Transformation::TimeMinutes, "min")], None);
    let t2 = target("b", vec![item("home", Transformation::AssertNumber, "h")], None);
    let standalone_a = t1.mapping.map(&source(), false).unwrap();
    let standalone_b = t2.mapping.map(&source(), false).unwrap();
    let env = serialize_mappings(&vec![t1, t2], &source(), false, None).unwrap();
    let expected = format!(
        "{{\"a\":{},\"b\":{}}}",
        to_json(&standalone_a),
        to_json(&standalone_b)
    );
    assert_eq!(to_json(&env), expected);
}

#[test]
fn gating_key_is_merged_into_the_target() {
    let targets = vec![target(
        "bug",
        vec![item("home", Transformation::NoTransform, "h")],
        Some("showBug"),
    )];
    let env = serialize_mappings(&targets, &source(), false, None).unwrap();
    assert_eq!(to_json(&env), "{\"bug\":{\"h\":42,\"__APPLY_CHECKBOX\":\"showBug\"}}");
}

#[test]
fn one_failing_target_aborts_the_whole_envelope() {
    let targets = vec![
        target("good", vec![item("home", Transformation::NoTransform, "h")], None),
        target("bad", vec![item("absent", Transformation::NoTransform, "x")], None),
    ];
    match serialize_mappings(&targets, &source(), false, Some(5)) {
        Err(MapError::SourceFieldNonExistent(f)) => assert_eq!(f, "absent"),
        other => panic!("unexpected {:?}", other),
    }
}
