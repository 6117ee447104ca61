//! safe_parse: the three-valued fold. Value for a clean parse, Violation for a
//! security violation, Malformed for malformed JSON.

use secure_json_parse::{safe_parse, safe_parse_bytes, JsonValue, SafeOutcome};

/// Converts a `serde_json` tree into the library's tree, node for node.
fn to_value(v: serde_json::Value) -> JsonValue {
    match v {
        serde_json::Value::Null => JsonValue::Null,
        serde_json::Value::Bool(b) => JsonValue::Bool(b),
        serde_json::Value::Number(n) => JsonValue::Number(n),
        serde_json::Value::String(s) => JsonValue::String(s),
        serde_json::Value::Array(a) => JsonValue::Array(a.into_iter().map(to_value).collect()),
        serde_json::Value::Object(m) => {
            JsonValue::Object(m.into_iter().map(|(k, x)| (k, to_value(x))).collect())
        }
    }
}

/// The value that `serde_json` reads from `text`.
fn json(text: &str) -> JsonValue {
    to_value(serde_json::from_str(text).unwrap())
}

const OBJ: &str = r#"{"a": 5, "b": 6}"#;

const PROTO: &str = r#"{ "a": 5, "b": 6, "__proto__": { "x": 7 } }"#;

const PROTO_NESTED: &str = r#"{ "a": 5, "b": 6, "__proto__": { "x": 7 }, "c": { "d": 0, "e": "text", "__proto__": { "y": 8 }, "f": { "g": 2 } } }"#;

const CTOR: &str = r#"{"a": 5, "b": 6, "constructor":{"prototype":{"bar":"baz"}} }"#;

const CTOR_NO_PROTO: &str = r#"{"a": 5, "b": 6,"constructor":{"bar":"baz"} }"#;

const MIXED_NESTED: &str = r#"{ "a": 5, "b": 6, "constructor": { "x": 7 }, "c": { "d": 0, "e": "text", "__proto__": { "y": 8 }, "f": { "g": 2 } } }"#;

const INVALID: &str = r#"{"a": 5, "b": 6"#;

fn value(outcome: SafeOutcome) -> JsonValue {
    match outcome {
        SafeOutcome::Value(v) => v,
        other => panic!("expected a value, got {other:?}"),
    }
}

#[test]
fn safe_parse_parses_bytes() {
    assert_eq!(value(safe_parse_bytes(b"\"X\"")), json(r#""X""#));
}

#[test]
fn parses_object() {
    assert_eq!(value(safe_parse(OBJ)), json(r#"{"a": 5, "b": 6}"#));
}

#[test]
fn parses_primitives() {
    assert_eq!(value(safe_parse("0")), json("0"));
    assert_eq!(value(safe_parse("null")), json("null"));
    assert_eq!(value(safe_parse(r#""X""#)), json(r#""X""#));
}

#[test]
fn nested_proto_returns_violation() {
    assert!(matches!(safe_parse(PROTO_NESTED), SafeOutcome::Violation));
}

#[test]
fn single_proto_returns_violation() {
    assert!(matches!(safe_parse(PROTO), SafeOutcome::Violation));
}

#[test]
fn mixed_returns_violation() {
    assert!(matches!(safe_parse(MIXED_NESTED), SafeOutcome::Violation));
}

#[test]
fn constructor_with_prototype_returns_violation() {
    assert!(matches!(safe_parse(CTOR), SafeOutcome::Violation));
}

#[test]
fn invalid_json_returns_malformed() {
    assert!(matches!(safe_parse(INVALID), SafeOutcome::Malformed));
}

#[test]
fn constructor_without_prototype_returns_value() {
    assert_eq!(
        value(safe_parse(CTOR_NO_PROTO)),
        json(r#"{"a": 5, "b": 6, "constructor": {"bar": "baz"}}"#)
    );
}

#[test]
fn bytes_path_violation_returns_violation() {
    assert!(matches!(
        safe_parse_bytes(br#"{"__proto__": {}}"#),
        SafeOutcome::Violation
    ));
}

#[test]
fn bytes_path_malformed_returns_malformed() {
    assert!(matches!(
        safe_parse_bytes(br#"{"a": "#),
        SafeOutcome::Malformed
    ));
}
