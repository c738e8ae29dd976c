use daktronics_singular_ui::transform::{Transformation, TransformationError};
use daktronics_singular_ui::value::Value;

fn num(v: &Result<Value, TransformationError>) -> i64 {
    match v {
        Ok(Value::Number(n)) => *n,
        other => panic!("expected a number, got {:?}", other),
    }
}

fn text(v: &Result<Value, TransformationError>) -> String {
    match v {
        Ok(Value::Str(s)) => s.clone(),
        other => panic!("expected a string, got {:?}", other),
    }
}

#[test]
fn time_minutes_with_minutes_segment() {
    let r = Transformation::TimeMinutes.transform(&Value::Str("5:30.2".to_string()));
    assert_eq!(num(&r), 5);
}

#[test]
fn time_seconds_with_minutes_segment() {
    let r = Transformation::TimeSeconds.transform(&Value::Str("5:30.2".to_string()));
    assert_eq!(num(&r), 30);
}

#[test]
fn time_minutes_without_minutes_segment() {
    let r = Transformation::TimeMinutes.transform(&Value::Str("45.0".to_string()));
    assert_eq!(num(&r), 0);
}

#[test]
fn time_seconds_without_minutes_segment() {
    let r = Transformation::TimeSeconds.transform(&Value::Str("45.0".to_string()));
    assert_eq!(num(&r), 45);
}

#[test]
fn time_tenths_with_fraction() {
    let r = Transformation::TimeTenths.transform(&Value::Str("1:02.3".to_string()));
    assert_eq!(num(&r), 3);
}

#[test]
fn time_tenths_without_fraction() {
    let r = Transformation::TimeTenths.transform(&Value::Str("45".to_string()));
    assert_eq!(num(&r), 0);
}

#[test]
fn time_transform_trims_whitespace() {
    let r = Transformation::TimeMinutes.transform(&Value::Str("  7:15 \n".to_string()));
    assert_eq!(num(&r), 7);
}

#[test]
fn time_transform_rejects_garbage() {
    let r = Transformation::TimeSeconds.transform(&Value::Str("ab".to_string()));
    assert!(matches!(r, Err(TransformationError::ParseInt)));
}

#[test]
fn time_transform_rejects_non_string() {
    let r = Transformation::TimeMinutes.transform(&Value::Number(5));
    assert!(matches!(r, Err(TransformationError::UnexpectedSourceType(Value::Number(5)))));
}

#[test]
fn ordinal_suffixes() {
    for (input, expected) in [
        (1, "1st"),
        (2, "2nd"),
        (3, "3rd"),
        (4, "4th"),
        (11, "11th"),
        (12, "12th"),
        (13, "13th"),
        (21, "21st"),
        (112, "112th"),
    ] {
        let r = Transformation::AppendOrdinalSuffix.transform(&Value::Number(input));
        assert_eq!(text(&r), expected);
    }
}

#[test]
fn ordinal_suffix_negative() {
    let r = Transformation::AppendOrdinalSuffix.transform(&Value::Number(-1));
    assert_eq!(text(&r), "-1st");
    let r = Transformation::AppendOrdinalSuffix.transform(&Value::Number(-11));
    assert_eq!(text(&r), "-11th");
}

#[test]
fn ordinal_rejects_non_number() {
    let r = Transformation::AppendOrdinalSuffix.transform(&Value::Str("4".to_string()));
    assert!(matches!(r, Err(TransformationError::UnexpectedSourceType(_))));
}

#[test]
fn no_transform_passes_values_through() {
    let r = Transformation::NoTransform.transform(&Value::Bool(true));
    assert!(matches!(r, Ok(Value::Bool(true))));
    let r = Transformation::NoTransform.transform(&Value::Str("x".to_string()));
    match r {
        Ok(Value::Str(s)) => assert_eq!(s, "x"),
        other => panic!("unexpected {:?}", other),
    }
}

#[test]
fn no_transform_rejects_null() {
    let r = Transformation::NoTransform.transform(&Value::Null);
    assert!(matches!(r, Err(TransformationError::UnexpectedSourceType(Value::Null))));
}

#[test]
fn assert_string_checks_type() {
    assert!(Transformation::AssertString.transform(&Value::Str("s".to_string())).is_ok());
    assert!(matches!(
        Transformation::AssertString.transform(&Value::Number(1)),
        Err(TransformationError::UnexpectedSourceType(_))
    ));
}

#[test]
fn assert_number_checks_type() {
    assert!(Transformation::AssertNumber.transform(&Value::Number(1)).is_ok());
    assert!(matches!(
        Transformation::AssertNumber.transform(&Value::Str("1".to_string())),
        Err(TransformationError::UnexpectedSourceType(_))
    ));
}

#[test]
fn assert_boolean_checks_type() {
    assert!(Transformation::AssertBoolean.transform(&Value::Bool(false)).is_ok());
    assert!(matches!(
        Transformation::AssertBoolean.transform(&Value::Null),
        Err(TransformationError::UnexpectedSourceType(_))
    ));
}

#[test]
fn transformation_labels() {
    assert_eq!(Transformation::NoTransform.label(), "No transformation");
    assert_eq!(Transformation::TimeTenths.label(), "Extract tenths from time");
    assert_eq!(
        Transformation::AppendOrdinalSuffix.label(),
        "Append ordinal suffix to number"
    );
}

#[test]
fn transformations_are_deterministic() {
    let v = Value::Str("9:59.9".to_string());
    for t in Transformation::all() {
        let a = format!("{:?}", t.transform(&v));
        let b = format!("{:?}", t.transform(&v));
        assert_eq!(a, b);
    }
}

#[test]
fn transformation_error_messages() {
    let e = Transformation::AssertBoolean
        .transform(&Value::Str("x".to_string()))
        .unwrap_err();
    assert_eq!(e.message(), "unexpected source type: string");
    let e = Transformation::TimeSeconds
        .transform(&Value::Str("zz".to_string()))
        .unwrap_err();
    assert_eq!(e.message(), "failed to parse int");
}
