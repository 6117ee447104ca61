//! The protoAction x constructorAction truth table. The input holds both a
//! `constructor.prototype` nesting and a `__proto__` key.

use secure_json_parse::{parse, Action, Error, JsonValue, Options};

/// Converts a `serde_json` tree into the library's tree, node for node.
fn to_value(v: serde_json::Value) -> JsonValue {
    match v {
        serde_json::Value::Null => JsonValue::Null,
        serde_json::Value::Bool(b) => JsonValue::Bool(b),
        serde_json::Value::Number(n) => JsonValue::Number(n),
        serde_json::Value::String(s) => JsonValue::String(s),
        serde_json::Value::Array(a) => JsonValue::Array(a.into_iter().map(to_value).collect()),
        serde_json::Value::Object(m) => {
            JsonValue::Object(m.into_iter().map(|(k, x)| (k, to_value(x))).collect())
        }
    }
}

/// The value that `serde_json` reads from `text`.
fn json(text: &str) -> JsonValue {
    to_value(serde_json::from_str(text).unwrap())
}

const MIXED: &str =
    r#"{"a": 5, "b": 6, "constructor":{"prototype":{"bar":"baz"}}, "__proto__": { "x": 7 } }"#;

const MIXED_NESTED: &str = r#"{ "a": 5, "b": 6, "constructor": { "x": 7 }, "c": { "d": 0, "e": "text", "__proto__": { "y": 8 }, "f": { "g": 2 } } }"#;

fn opts(proto: Action, ctor: Action) -> Options {
    Options::default()
        .proto_action(proto)
        .constructor_action(ctor)
}

#[test]
fn remove_remove_strips_both() {
    let v = parse(MIXED, &opts(Action::Remove, Action::Remove))
        .unwrap()
        .unwrap();
    assert_eq!(v, json(r#"{"a": 5, "b": 6}"#));
}

#[test]
fn ignore_remove_keeps_proto() {
    let v = parse(MIXED, &opts(Action::Ignore, Action::Remove))
        .unwrap()
        .unwrap();
    let expected = json(r#"{ "a": 5, "b": 6, "__proto__": { "x": 7 } }"#);
    assert_eq!(v, expected);
}

#[test]
fn remove_ignore_keeps_constructor() {
    let v = parse(MIXED, &opts(Action::Remove, Action::Ignore))
        .unwrap()
        .unwrap();
    let expected = json(r#"{ "a": 5, "b": 6, "constructor":{"prototype":{"bar":"baz"}} }"#);
    assert_eq!(v, expected);
}

#[test]
fn ignore_ignore_keeps_both() {
    let v = parse(MIXED, &opts(Action::Ignore, Action::Ignore))
        .unwrap()
        .unwrap();
    let raw = json(MIXED);
    assert_eq!(v, raw);
}

#[test]
fn error_ignore_throws() {
    assert!(matches!(
        parse(MIXED, &opts(Action::Error, Action::Ignore)),
        Err(Error::ForbiddenProperty)
    ));
}

#[test]
fn ignore_error_throws() {
    assert!(matches!(
        parse(MIXED, &opts(Action::Ignore, Action::Error)),
        Err(Error::ForbiddenProperty)
    ));
}

#[test]
fn error_error_throws() {
    assert!(matches!(
        parse(MIXED, &opts(Action::Error, Action::Error)),
        Err(Error::ForbiddenProperty)
    ));
}

#[test]
fn mixed_nested_constructor_then_proto_errors() {
    // A plain constructor key plus a nested __proto__ errors by default.
    assert!(matches!(
        parse(MIXED_NESTED, &Options::default()),
        Err(Error::ForbiddenProperty)
    ));
}
