use daktronics_singular_ui::json::{to_json, to_json_pretty};
use daktronics_singular_ui::value::{Record, Value};

#[test]
fn scalars_render_as_json() {
    assert_eq!(to_json(&Value::Null), "null");
    assert_eq!(to_json(&Value::Bool(true)), "true");
    assert_eq!(to_json(&Value::Bool(false)), "false");
    assert_eq!(to_json(&Value::Number(0)), "0");
    assert_eq!(to_json(&Value::Number(1700000000000)), "1700000000000");
    assert_eq!(to_json(&Value::Number(-45)), "-45");
    assert_eq!(to_json(&Value::Number(i64::MIN)), "-9223372036854775808");
    assert_eq!(to_json(&Value::Number(i64::MAX)), "9223372036854775807");
}

#[test]
fn strings_are_escaped() {
    assert_eq!(to_json(&Value::Str("plain".to_string())), "\"plain\"");
    assert_eq!(
        to_json(&Value::Str("a\"b\\c\nd\te\rf".to_string())),
        "\"a\\\"b\\\\c\\nd\\te\\rf\""
    );
    assert_eq!(to_json(&Value::Str("\u{8}\u{c}".to_string())), "\"\\b\\f\"");
    assert_eq!(to_json(&Value::Str("\u{1}\u{1f}".to_string())), "\"\\u0001\\u001f\"");
    assert_eq!(to_json(&Value::Str("héllo ⚽".to_string())), "\"héllo ⚽\"");
}

#[test]
fn arrays_and_objects_render_in_order() {
    let arr = Value::Array(vec![Value::Number(1), Value::Null, Value::Str("x".to_string())]);
    assert_eq!(to_json(&arr), "[1,null,\"x\"]");
    assert_eq!(to_json(&Value::Array(vec![])), "[]");
    let mut rec = Record::new();
    assert_eq!(to_json(&Value::Object(rec)), "{}");
    rec = Record::new();
    rec.insert("b".to_string(), Value::Number(2));
    rec.insert("a".to_string(), Value::Number(1));
    assert_eq!(to_json(&Value::Object(rec)), "{\"b\":2,\"a\":1}");
}

#[test]
fn nested_structures_render() {
    let mut inner = Record::new();
    inner.insert("xs".to_string(), Value::Array(vec![Value::Bool(false)]));
    let mut outer = Record::new();
    outer.insert("inner".to_string(), Value::Object(inner));
    assert_eq!(to_json(&Value::Object(outer)), "{\"inner\":{\"xs\":[false]}}");
}

#[test]
fn matches_the_reference_json_library() {
    let mut rec = Record::new();
    rec.insert("s".to_string(), Value::Str("q\"\\\n\u{2}".to_string()));
    rec.insert("n".to_string(), Value::Number(-7));
    rec.insert("vals".to_string(), Value::Array(vec![Value::Null, Value::Bool(true)]));
    let ours = to_json(&Value::Object(rec));
    let mut reference_map = serde_json::Map::new();
    reference_map.insert(
        "s".to_string(),
        serde_json::Value::String("q\"\\\n\u{2}".to_string()),
    );
    reference_map.insert("n".to_string(), serde_json::Value::Number((-7).into()));
    reference_map.insert(
        "vals".to_string(),
        serde_json::Value::Array(vec![serde_json::Value::Null, serde_json::Value::Bool(true)]),
    );
    let reference = serde_json::Value::Object(reference_map);
    let theirs = serde_json::to_string(&reference).unwrap();
    let ours_parsed: serde_json::Value = serde_json::from_str(&ours).unwrap();
    let theirs_parsed: serde_json::Value = serde_json::from_str(&theirs).unwrap();
    assert_eq!(ours_parsed, theirs_parsed);
}

#[test]
fn pretty_rendering_indents_nested_structures() {
    assert_eq!(to_json_pretty(&Value::Null), "null");
    assert_eq!(to_json_pretty(&Value::Array(vec![])), "[]");
    assert_eq!(to_json_pretty(&Value::Object(Record::new())), "{}");
    let mut inner = Record::new();
    inner.insert("xs".to_string(), Value::Array(vec![Value::Number(1), Value::Number(2)]));
    let mut outer = Record::new();
    outer.insert("inner".to_string(), Value::Object(inner));
    outer.insert("flag".to_string(), Value::Bool(true));
    assert_eq!(
        to_json_pretty(&Value::Object(outer)),
        "{\n  \"inner\": {\n    \"xs\": [\n      1,\n      2\n    ]\n  },\n  \"flag\": true\n}"
    );
}

#[test]
fn pretty_rendering_matches_the_reference_json_library() {
    // keys in sorted order, since the reference library re-serializes its
    // maps sorted
    let mut rec = Record::new();
    rec.insert("empty".to_string(), Value::Object(Record::new()));
    rec.insert("s".to_string(), Value::Str("x".to_string()));
    rec.insert("vals".to_string(), Value::Array(vec![Value::Null, Value::Number(-3)]));
    let ours = to_json_pretty(&Value::Object(rec));
    let parsed: serde_json::Value = serde_json::from_str(&ours).unwrap();
    assert_eq!(ours, serde_json::to_string_pretty(&parsed).unwrap());
}
