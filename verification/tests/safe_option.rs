//! The safe flag on parse and scan. A violation returns Ok(None). The check is
//! skipped under Ignore, so safe never fires there.

use secure_json_parse::{parse, scan, Action, Error, JsonValue, Options};

/// Converts a `serde_json` tree into the library's tree, node for node.
fn to_value(v: serde_json::Value) -> JsonValue {
    match v {
        serde_json::Value::Null => JsonValue::Null,
        serde_json::Value::Bool(b) => JsonValue::Bool(b),
        serde_json::Value::Number(n) => JsonValue::Number(n),
        serde_json::Value::String(s) => JsonValue::String(s),
        serde_json::Value::Array(a) => JsonValue::Array(a.into_iter().map(to_value).collect()),
        serde_json::Value::Object(m) => {
            JsonValue::Object(m.into_iter().map(|(k, x)| (k, to_value(x))).collect())
        }
    }
}

/// The value that `serde_json` reads from `text`.
fn json(text: &str) -> JsonValue {
    to_value(serde_json::from_str(text).unwrap())
}

const OBJ: &str = r#"{"a": 5, "b": 6}"#;

const PROTO: &str = r#"{ "a": 5, "b": 6, "__proto__": { "x": 7 } }"#;

const CTOR: &str = r#"{"a": 5, "b": 6, "constructor":{"prototype":{"bar":"baz"}} }"#;

const MIXED: &str =
    r#"{"a": 5, "b": 6, "constructor":{"prototype":{"bar":"baz"}}, "__proto__": { "x": 7 } }"#;

fn safe() -> Options {
    Options::default().safe(true)
}

#[test]
fn parse_safe_proto_returns_none() {
    assert_eq!(parse(PROTO, &safe()).unwrap(), None);
}

#[test]
fn parse_safe_constructor_returns_none() {
    assert_eq!(parse(CTOR, &safe()).unwrap(), None);
}

#[test]
fn parse_safe_valid_returns_value() {
    assert_eq!(parse(OBJ, &safe()).unwrap(), Some(json(r#"{"a": 5, "b": 6}"#)));
}

#[test]
fn parse_safe_wins_over_remove_proto() {
    let opts = safe().proto_action(Action::Remove);
    assert_eq!(parse(PROTO, &opts).unwrap(), None);
}

#[test]
fn parse_safe_wins_over_remove_constructor() {
    let opts = safe().constructor_action(Action::Remove);
    assert_eq!(parse(CTOR, &opts).unwrap(), None);
}

#[test]
fn parse_not_safe_proto_throws() {
    let opts = Options::default().safe(false);
    assert!(matches!(parse(PROTO, &opts), Err(Error::ForbiddenProperty)));
}

#[test]
fn parse_not_safe_constructor_throws() {
    let opts = Options::default().safe(false);
    assert!(matches!(parse(CTOR, &opts), Err(Error::ForbiddenProperty)));
}

#[test]
fn parse_safe_nested_proto_returns_none() {
    let text = r#"{ "a": 5, "c": { "d": 0, "__proto__": { "y": 8 } } }"#;
    assert_eq!(parse(text, &safe()).unwrap(), None);
}

#[test]
fn parse_safe_nested_constructor_returns_none() {
    let text = r#"{ "a": 5, "c": { "d": 0, "constructor": {"prototype": {"bar": "baz"}} } }"#;
    assert_eq!(parse(text, &safe()).unwrap(), None);
}

#[test]
fn parse_safe_ignore_proto_keeps_value() {
    let opts = safe().proto_action(Action::Ignore);
    let raw = json(PROTO);
    assert_eq!(parse(PROTO, &opts).unwrap(), Some(raw));
}

#[test]
fn parse_safe_ignore_constructor_keeps_value() {
    let opts = safe().constructor_action(Action::Ignore);
    let raw = json(CTOR);
    assert_eq!(parse(CTOR, &opts).unwrap(), Some(raw));
}

#[test]
fn parse_safe_with_both_proto_and_constructor() {
    // Both forbidden keys present. Safe mode still folds to None.
    assert_eq!(parse(MIXED, &safe()).unwrap(), None);
}

#[test]
fn scan_safe_proto_returns_none() {
    let obj = json(PROTO);
    assert_eq!(scan(obj, &safe()).unwrap(), None);
}

#[test]
fn scan_safe_constructor_returns_none() {
    let obj = json(CTOR);
    assert_eq!(scan(obj, &safe()).unwrap(), None);
}

#[test]
fn scan_safe_valid_returns_value() {
    let obj = json(r#"{"a": 5, "b": 6}"#);
    assert_eq!(
        scan(obj, &safe()).unwrap(),
        Some(json(r#"{"a": 5, "b": 6}"#))
    );
}

#[test]
fn scan_not_safe_proto_throws() {
    let obj = json(PROTO);
    let opts = Options::default().safe(false);
    assert!(matches!(scan(obj, &opts), Err(Error::ForbiddenProperty)));
}

#[test]
fn scan_not_safe_constructor_throws() {
    let obj = json(CTOR);
    let opts = Options::default().safe(false);
    assert!(matches!(scan(obj, &opts), Err(Error::ForbiddenProperty)));
}
