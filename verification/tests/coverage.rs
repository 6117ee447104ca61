//! Extra coverage for branches the inline cases leave implicit: arrays,
//! duplicate keys, deep nesting, and keys that look forbidden but are not.

use secure_json_parse::{parse, safe_parse, Action, Error, JsonValue, Options, SafeOutcome};

/// Converts a `serde_json` tree into the library's tree, node for node.
fn to_value(v: serde_json::Value) -> JsonValue {
    match v {
        serde_json::Value::Null => JsonValue::Null,
        serde_json::Value::Bool(b) => JsonValue::Bool(b),
        serde_json::Value::Number(n) => JsonValue::Number(n),
        serde_json::Value::String(s) => JsonValue::String(s),
        serde_json::Value::Array(a) => JsonValue::Array(a.into_iter().map(to_value).collect()),
        serde_json::Value::Object(m) => {
            JsonValue::Object(m.into_iter().map(|(k, x)| (k, to_value(x))).collect())
        }
    }
}

/// The value that `serde_json` reads from `text`.
fn json(text: &str) -> JsonValue {
    to_value(serde_json::from_str(text).unwrap())
}

#[test]
fn top_level_array_with_proto_is_walked() {
    let text = r#"[{"__proto__": {"x": 1}}, {"a": 2}]"#;
    // Remove cleans each element.
    let opts = Options::default().proto_action(Action::Remove);
    let v = parse(text, &opts).unwrap().unwrap();
    assert_eq!(v, json(r#"[{}, {"a": 2}]"#));
    // Error fires on the first element.
    assert!(matches!(
        parse(text, &Options::default()),
        Err(Error::ForbiddenProperty)
    ));
}

#[test]
fn array_nested_in_object_constructor_removed() {
    let text = r#"{"list": [{"constructor": {"prototype": {}}}]}"#;
    let opts = Options::default().constructor_action(Action::Remove);
    let v = parse(text, &opts).unwrap().unwrap();
    assert_eq!(v, json(r#"{"list": [{}]}"#));
}

#[test]
fn duplicate_proto_keys_still_detected() {
    // JSON allows duplicate keys; the parser keeps the last. The key is still
    // named __proto__, so detection holds.
    let text = r#"{"__proto__": {"x": 1}, "__proto__": {"y": 2}}"#;
    assert!(matches!(
        parse(text, &Options::default()),
        Err(Error::ForbiddenProperty)
    ));
    let opts = Options::default().proto_action(Action::Remove);
    let v = parse(text, &opts).unwrap().unwrap();
    assert_eq!(v, json("{}"));
}

#[test]
fn lookalike_keys_do_not_trip() {
    // proto, __proto, constructorr, constructo: none is a forbidden token.
    let inputs = [
        r#"{"proto": {"x": 7}}"#,
        r#"{"__proto": {"x": 7}}"#,
        r#"{"constructorr": {"prototype": {}}}"#,
        r#"{"constructo": {"prototype": {}}}"#,
        r#"{"_proto_": {"x": 7}}"#,
    ];
    for text in inputs {
        let v = parse(text, &Options::default());
        assert!(v.is_ok(), "expected ok for {text:?}");
    }
}

#[test]
fn benchmark_lookalike_input_is_clean() {
    // The "proto"/"__proto" pair from a benchmark input must never trip.
    let text = r#"{ "a": 5, "b": 6, "proto": { "x": 7 }, "c": { "d": 0, "e": "text", "__proto": { "y": 8 }, "f": { "g": 2 } } }"#;
    assert!(parse(text, &Options::default()).is_ok());
}

#[test]
fn deep_nesting_does_not_overflow() {
    // serde_json caps parse recursion, so any value the parser accepts is within
    // a depth the walk handles. Use a depth near that cap to exercise the
    // deepest accepted input.
    let depth = 120;
    let mut text = String::new();
    for _ in 0..depth {
        text.push_str(r#"{"a":"#);
    }
    text.push('1');
    for _ in 0..depth {
        text.push('}');
    }
    let v = parse(&text, &Options::default());
    assert!(v.is_ok(), "parser should accept depth {depth}");
}

#[test]
fn safe_parse_on_primitive_is_value() {
    assert!(matches!(safe_parse("0"), SafeOutcome::Value(_)));
    assert!(matches!(safe_parse("null"), SafeOutcome::Value(_)));
    assert!(matches!(safe_parse(r#""X""#), SafeOutcome::Value(_)));
}
