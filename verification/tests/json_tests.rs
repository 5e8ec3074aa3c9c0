use rich_rust::renderables::json::{escape_json_string, Json, JsonTheme, JsonValue};
use rich_rust::style::Style;

fn num(n: &str) -> JsonValue {
    JsonValue::Number(n.to_string())
}

fn s(t: &str) -> JsonValue {
    JsonValue::Str(t.to_string())
}

fn obj(entries: Vec<(&str, JsonValue)>) -> JsonValue {
    JsonValue::Object(entries.into_iter().map(|(k, v)| (k.to_string(), v)).collect())
}

fn from_serde(v: serde_json::Value) -> JsonValue {
    match v {
        serde_json::Value::Null => JsonValue::Null,
        serde_json::Value::Bool(b) => JsonValue::Bool(b),
        serde_json::Value::Number(n) => JsonValue::Number(n.to_string()),
        serde_json::Value::String(t) => JsonValue::Str(t),
        serde_json::Value::Array(a) => JsonValue::Array(a.into_iter().map(from_serde).collect()),
        serde_json::Value::Object(o) => JsonValue::Object(o.into_iter().map(|(k, v)| (k, from_serde(v))).collect()),
    }
}

fn from_str(t: &str) -> Result<Json, serde_json::Error> {
    serde_json::from_str::<serde_json::Value>(t).map(|v| Json::new(from_serde(v)))
}

fn text(json: &Json) -> String {
    json.render().iter().map(|s| s.text.as_str()).collect()
}

#[test]
fn test_json_null() {
    assert_eq!(text(&Json::new(JsonValue::Null)), "null");
}

#[test]
fn test_json_bool_true() {
    assert_eq!(text(&Json::new(JsonValue::Bool(true))), "true");
}

#[test]
fn test_json_bool_false() {
    assert_eq!(text(&Json::new(JsonValue::Bool(false))), "false");
}

#[test]
fn test_json_number_int() {
    assert_eq!(text(&Json::new(num("42"))), "42");
}

#[test]
fn test_json_number_float() {
    assert_eq!(text(&Json::new(num("1.23"))), "1.23");
}

#[test]
fn test_json_string() {
    assert_eq!(text(&Json::new(s("hello"))), "\"hello\"");
}

#[test]
fn test_json_string_escaped() {
    assert_eq!(text(&Json::new(s("line1\nline2"))), "\"line1\\nline2\"");
}

#[test]
fn test_json_empty_array() {
    assert_eq!(text(&Json::new(JsonValue::Array(vec![]))), "[]");
}

#[test]
fn test_json_simple_array() {
    let json = Json::new(JsonValue::Array(vec![num("1"), num("2"), num("3")])).indent(2);
    let text = json.to_plain_string();
    assert!(text.contains("[\n"));
    assert!(text.contains("  1"));
    assert!(text.contains("  2"));
    assert!(text.contains("  3"));
    assert!(text.contains(']'));
}

#[test]
fn test_json_empty_object() {
    assert_eq!(text(&Json::new(obj(vec![]))), "{}");
}

#[test]
fn test_json_simple_object() {
    let json = Json::new(obj(vec![("name", s("Alice"))])).indent(2);
    let text = json.to_plain_string();
    assert!(text.contains("{\n"));
    assert!(text.contains("\"name\""));
    assert!(text.contains(": \"Alice\""));
    assert!(text.contains('}'));
}

#[test]
fn test_json_nested_object() {
    let json = Json::new(obj(vec![("person", obj(vec![("name", s("Alice")), ("age", num("30"))]))])).indent(2);
    let text = json.to_plain_string();
    assert!(text.contains("\"person\""));
    assert!(text.contains("\"name\""));
    assert!(text.contains("\"Alice\""));
    assert!(text.contains("\"age\""));
    assert!(text.contains("30"));
}

#[test]
fn test_json_from_str() {
    let json = from_str(r#"{"key": "value"}"#).unwrap();
    let text = json.to_plain_string();
    assert!(text.contains("\"key\""));
    assert!(text.contains("\"value\""));
}

#[test]
fn test_json_from_str_invalid() {
    assert!(from_str("not valid json").is_err());
}

#[test]
fn test_json_sort_keys() {
    let json = Json::new(obj(vec![("z", num("1")), ("a", num("2")), ("m", num("3"))])).sort_keys(true);
    let text = json.to_plain_string();
    let pos_a = text.find("\"a\"").unwrap();
    let pos_m = text.find("\"m\"").unwrap();
    let pos_z = text.find("\"z\"").unwrap();
    assert!(pos_a < pos_m);
    assert!(pos_m < pos_z);
}

#[test]
fn test_json_no_highlight() {
    let json = Json::new(s("test")).highlight(false);
    assert!(json.render().iter().all(|s| s.style.is_none()));
}

#[test]
fn test_json_with_highlight() {
    let json = Json::new(s("test")).highlight(true);
    assert!(json.render().iter().any(|s| s.style.is_some()));
}

#[test]
fn test_json_custom_indent() {
    let json = Json::new(JsonValue::Array(vec![num("1")])).indent(4);
    assert!(json.to_plain_string().contains("    1"));
}

#[test]
fn test_json_mixed_array() {
    let json = Json::new(JsonValue::Array(vec![num("1"), s("two"), JsonValue::Bool(true), JsonValue::Null]));
    let text = json.to_plain_string();
    assert!(text.contains('1'));
    assert!(text.contains("\"two\""));
    assert!(text.contains("true"));
    assert!(text.contains("null"));
}

#[test]
fn test_json_complex() {
    let json = Json::new(obj(vec![
        (
            "users",
            JsonValue::Array(vec![
                obj(vec![("name", s("Alice")), ("active", JsonValue::Bool(true))]),
                obj(vec![("name", s("Bob")), ("active", JsonValue::Bool(false))]),
            ]),
        ),
        ("count", num("2")),
        ("meta", JsonValue::Null),
    ]))
    .sort_keys(true);
    let text = json.to_plain_string();
    for needle in ["\"users\"", "\"count\"", "\"meta\"", "\"Alice\"", "\"Bob\"", "true", "false", "null", "2"] {
        assert!(text.contains(needle));
    }
}

#[test]
fn test_escape_json_string() {
    assert_eq!(escape_json_string("hello"), "hello");
    assert_eq!(escape_json_string("say \"hi\""), "say \\\"hi\\\"");
    assert_eq!(escape_json_string("a\\b"), "a\\\\b");
    assert_eq!(escape_json_string("line1\nline2"), "line1\\nline2");
    assert_eq!(escape_json_string("tab\there"), "tab\\there");
}

#[test]
fn test_json_custom_theme() {
    let theme = JsonTheme {
        key: Style::new().color_str("red").unwrap_or_default(),
        string: Style::new().color_str("blue").unwrap_or_default(),
        number: Style::new().color_str("green").unwrap_or_default(),
        boolean: Style::new().color_str("yellow").unwrap_or_default(),
        null: Style::new().color_str("white").unwrap_or_default(),
        bracket: Style::new().color_str("cyan").unwrap_or_default(),
        punctuation: Style::new().color_str("magenta").unwrap_or_default(),
    };
    let json = Json::new(obj(vec![("key", s("value"))])).theme(theme);
    assert!(json.render().iter().any(|s| s.style.is_some()));
}

#[test]
fn json_layout_exact() {
    let json = Json::new(obj(vec![("b", JsonValue::Array(vec![num("1"), JsonValue::Null])), ("a", obj(vec![]))]));
    assert_eq!(json.to_plain_string(), "{\n  \"b\": [\n    1,\n    null\n  ],\n  \"a\": {}\n}");
    assert_eq!(escape_json_string("\u{1}\u{7f}"), "\\u0001\\u007f");
}

#[test]
fn json_depth_limit_elides_nested_arrays() {
    let mut v = JsonValue::Array(vec![num("0")]);
    for _ in 0..25 {
        v = JsonValue::Array(vec![v]);
    }
    assert!(Json::new(v).indent(0).to_plain_string().contains("[...]"));
}

#[test]
fn escaped_strings_hold_no_control_characters() {
    let escaped = rich_rust::renderables::json::escape_json_string("a\u{1}\u{7f}\"\n");
    assert!(escaped.chars().all(|c| !(c < ' ' || ('\u{7f}'..='\u{9f}').contains(&c))));
    assert_eq!(escaped, "a\\u0001\\u007f\\\"\\n");
}
