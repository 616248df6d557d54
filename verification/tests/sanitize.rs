use semantic_gateway::sanitize::sanitize;
use serde_json::{Number, Value};

fn text(s: &str) -> Value {
    Value::String(s.to_string())
}

fn object(members: Vec<(&str, Value)>) -> Value {
    let mut map = serde_json::Map::new();
    for (key, value) in members {
        map.insert(key.to_string(), value);
    }
    Value::Object(map)
}

fn response() -> Value {
    object(vec![
        ("meta", Value::Array(vec![object(vec![("name", text("day"))])])),
        ("data", Value::Array(vec![object(vec![("day", text("2024-01-01"))])])),
        ("rows", Value::Number(Number::from(1))),
        ("statistics", object(vec![("rows_read", Value::Number(Number::from(10)))])),
    ])
}

#[test]
fn envelope_is_removed_unless_asked_for() {
    assert_eq!(
        sanitize(response(), false),
        object(vec![("data", Value::Array(vec![object(vec![("day", text("2024-01-01"))])]))])
    );
}

#[test]
fn envelope_is_kept_when_asked_for() {
    assert_eq!(sanitize(response(), true), response());
}

#[test]
fn members_other_than_the_envelope_stay() {
    let raw = object(vec![
        ("data", Value::Array(vec![])),
        ("exception", text("boom")),
        ("rows", Value::Number(Number::from(0))),
        ("Meta", text("kept")),
    ]);
    assert_eq!(
        sanitize(raw, false),
        object(vec![
            ("data", Value::Array(vec![])),
            ("exception", text("boom")),
            ("Meta", text("kept")),
        ])
    );
}

#[test]
fn object_without_envelope_is_unchanged() {
    let raw = object(vec![("data", Value::Array(vec![]))]);
    assert_eq!(sanitize(raw, false), object(vec![("data", Value::Array(vec![]))]));
}

#[test]
fn empty_object_is_unchanged() {
    assert_eq!(sanitize(object(vec![]), false), object(vec![]));
}

#[test]
fn only_top_level_members_are_removed() {
    let raw = object(vec![
        ("data", object(vec![("meta", text("inner")), ("rows", Value::Null)])),
        ("meta", text("outer")),
    ]);
    assert_eq!(
        sanitize(raw, false),
        object(vec![("data", object(vec![("meta", text("inner")), ("rows", Value::Null)]))])
    );
}

#[test]
fn values_that_are_no_objects_pass_through() {
    assert_eq!(sanitize(Value::Null, false), Value::Null);
    assert_eq!(sanitize(Value::Bool(true), false), Value::Bool(true));
    assert_eq!(sanitize(text("meta"), false), text("meta"));
    assert_eq!(
        sanitize(Value::Number(Number::from(3)), false),
        Value::Number(Number::from(3))
    );
    let array = Value::Array(vec![object(vec![("meta", text("m"))]), text("rows")]);
    assert_eq!(sanitize(array.clone(), false), array);
    assert_eq!(sanitize(array.clone(), true), array);
}
