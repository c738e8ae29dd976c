use daktronics_singular_ui::json::to_json;
use daktronics_singular_ui::mapping::{MapError, Mapping, MappingItem};
use daktronics_singular_ui::transform::{Transformation, TransformationError};
use daktronics_singular_ui::value::{Record, Value};

fn item(enabled: bool, source: &str, t: Transformation, dest: &str) -> MappingItem {
    MappingItem {
        enabled,
        source_field: source.to_string(),
        transformation: t,
        destination_field: dest.to_string(),
    }
}

fn source_record(fields: &[(&str, Value)]) -> Value {
    let mut rec = Record::new();
    for (k, v) in fields {
        rec.insert(k.to_string(), clone_value(v));
    }
    Value::Object(rec)
}

fn clone_value(v: &Value) -> Value {
    match v {
        Value::Null => Value::Null,
        Value::Bool(b) => Value::Bool(*b),
        Value::Number(n) => Value::Number(*n),
        Value::Str(s) => Value::Str(s.clone()),
        other => panic!("not needed here: {:?}", other),
    }
}

#[test]
fn map_populates_exactly_the_enabled_destinations() {
    let mapping = Mapping {
        items: vec![
            item(true, "clock", Transformation::TimeMinutes, "min"),
            item(false, "clock", Transformation::TimeSeconds, "ignored"),
            item(true, "home", Transformation::AssertNumber, "homeScore"),
        ],
    };
    let src = source_record(&[
        ("clock", Value::Str("5:30.2".to_string())),
        ("home", Value::Number(42)),
    ]);
    let out = mapping.map(&src, false).unwrap();
    assert_eq!(to_json(&out), "{\"min\":5,\"homeScore\":42}");
}

#[test]
fn map_rejects_non_record_source() {
    let mapping = Mapping { items: vec![] };
    let r = mapping.map(&Value::Number(3), false);
    assert!(matches!(r, Err(MapError::SourceNotMap)));
}

#[test]
fn map_reports_missing_source_field() {
    let mapping = Mapping {
        items: vec![item(true, "absent", Transformation::NoTransform, "out")],
    };
    let src = source_record(&[("present", Value::Number(1))]);
    match mapping.map(&src, false) {
        Err(MapError::SourceFieldNonExistent(f)) => assert_eq!(f, "absent"),
        other => panic!("unexpected {:?}", other),
    }
}

#[test]
fn duplicate_destination_fails_in_either_order() {
    let src = source_record(&[("a", Value::Number(1)), ("b", Value::Number(2))]);
    for items in [
        vec![
            item(true, "a", Transformation::NoTransform, "dup"),
            item(true, "b", Transformation::NoTransform, "dup"),
        ],
        vec![
            item(true, "b", Transformation::NoTransform, "dup"),
            item(true, "a", Transformation::NoTransform, "dup"),
        ],
    ] {
        let mapping = Mapping { items };
        match mapping.map(&src, false) {
            Err(MapError::DestinationFieldAlreadyPresent(f)) => assert_eq!(f, "dup"),
            other => panic!("unexpected {:?}", other),
        }
    }
}

#[test]
fn disabled_duplicate_is_harmless() {
    let src = source_record(&[("a", Value::Number(1))]);
    let mapping = Mapping {
        items: vec![
            item(true, "a", Transformation::NoTransform, "dup"),
            item(false, "a", Transformation::NoTransform, "dup"),
        ],
    };
    let out = mapping.map(&src, false).unwrap();
    assert_eq!(to_json(&out), "{\"dup\":1}");
}

#[test]
fn null_source_is_skipped_when_excluding_incomplete() {
    let src = source_record(&[
        ("clock", Value::Null),
        ("home", Value::Number(7)),
    ]);
    let mapping = Mapping {
        items: vec![
            item(true, "clock", Transformation::TimeMinutes, "min"),
            item(true, "home", Transformation::AssertNumber, "homeScore"),
        ],
    };
    let out = mapping.map(&src, true).unwrap();
    assert_eq!(to_json(&out), "{\"homeScore\":7}");
}

#[test]
fn null_source_aborts_without_exclusion() {
    let src = source_record(&[
        ("clock", Value::Null),
        ("home", Value::Number(7)),
    ]);
    let mapping = Mapping {
        items: vec![
            item(true, "clock", Transformation::TimeMinutes, "min"),
            item(true, "home", Transformation::AssertNumber, "homeScore"),
        ],
    };
    match mapping.map(&src, false) {
        Err(MapError::Transformation(dest, TransformationError::UnexpectedSourceType(Value::Null))) => {
            assert_eq!(dest, "min")
        },
        other => panic!("unexpected {:?}", other),
    }
}

#[test]
fn hard_transform_failure_aborts_even_with_exclusion() {
    let src = source_record(&[("clock", Value::Bool(true))]);
    let mapping = Mapping {
        items: vec![item(true, "clock", Transformation::TimeMinutes, "min")],
    };
    match mapping.map(&src, true) {
        Err(MapError::Transformation(dest, TransformationError::UnexpectedSourceType(Value::Bool(true)))) => {
            assert_eq!(dest, "min")
        },
        other => panic!("unexpected {:?}", other),
    }
}

#[test]
fn clock_scenario_minutes_and_seconds() {
    let src = source_record(&[("clock", Value::Str("1:02.3".to_string()))]);
    let mapping = Mapping {
        items: vec![
            item(true, "clock", Transformation::TimeMinutes, "min"),
            item(true, "clock", Transformation::TimeSeconds, "sec"),
        ],
    };
    let out = mapping.map(&src, false).unwrap();
    assert_eq!(to_json(&out), "{\"min\":1,\"sec\":2}");
}

#[test]
fn map_error_messages() {
    assert_eq!(MapError::SourceNotMap.message(), "source is not a map");
    assert_eq!(
        MapError::SourceFieldNonExistent("clock".to_string()).message(),
        "source field clock does not exist"
    );
    assert_eq!(
        MapError::DestinationFieldAlreadyPresent("min".to_string()).message(),
        "destination field min is already present in the output; maybe there's a duplicate?"
    );
    assert_eq!(
        MapError::Transformation("min".to_string(), TransformationError::ParseInt).message(),
        "transformation error for destination field min: failed to parse int"
    );
}

#[test]
fn default_mapping_item_is_enabled_and_empty() {
    let it = MappingItem::default();
    assert!(it.enabled);
    assert_eq!(it.source_field, "");
    assert_eq!(it.destination_field, "");
    assert!(matches!(it.transformation, Transformation::NoTransform));
}
