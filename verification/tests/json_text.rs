use fastermail::json::{JsonObject, JsonValue};
use fastermail::json_text::{json_text, object_of};
use fastermail::recorder::{mcp_message, Recorder};

fn obj(members: Vec<(&str, JsonValue)>) -> JsonValue {
    let mut o = JsonObject::new();
    for (k, v) in members {
        o.insert(k.to_string(), v);
    }
    JsonValue::Object(o)
}

#[test]
fn json_text_indents_members_in_key_order() {
    let v = obj(vec![
        ("b", JsonValue::UInt(1)),
        ("a", JsonValue::Array(vec![JsonValue::Bool(true), JsonValue::Null])),
    ]);
    assert_eq!(json_text(&v), "{\n  \"a\": [\n    true,\n    null\n  ],\n  \"b\": 1\n}");
}

#[test]
fn json_text_writes_numbers_and_escapes() {
    assert_eq!(json_text(&JsonValue::Int(-3)), "-3");
    assert_eq!(json_text(&JsonValue::Decimal("1.5".to_string())), "1.5");
    assert_eq!(json_text(&JsonValue::Str("a\"b\n".to_string())), "\"a\\\"b\\n\"");
    assert_eq!(json_text(&obj(vec![])), "{}");
}

#[test]
fn mcp_message_reads_json_or_gives_null() {
    let m = mcp_message(r#"{"jsonrpc": "2.0", "id": 1, "method": "ping", "params": {"n": -2, "x": 0.5}}"#);
    let o = m.as_object().expect("an object");
    assert_eq!(o.get("method").and_then(|v| v.as_str()), Some("ping"));
    assert_eq!(o.get("id").and_then(|v| v.as_u64()), Some(1));
    assert!(matches!(m.pointer("/params/n"), Some(JsonValue::Int(-2))));
    assert!(matches!(m.pointer("/params/x"), Some(JsonValue::Decimal(s)) if s == "0.5"));
    assert!(matches!(mcp_message("not json {"), JsonValue::Null));
    assert!(matches!(mcp_message(""), JsonValue::Null));
}

#[test]
fn mcp_message_entry_records_the_parsed_message() {
    let e = Recorder::mcp_message_entry("mcp_request", "mcp_req", "12.345", "tools/call", r#"{"id": 3}"#);
    assert_eq!(e.prefix, "mcp_req");
    assert_eq!(e.method, "tools/call");
    assert_eq!(e.entry.pointer("/type").and_then(|v| v.as_str()), Some("mcp_request"));
    assert_eq!(e.entry.pointer("/timestamp").and_then(|v| v.as_str()), Some("12.345"));
    assert_eq!(e.entry.pointer("/message/id").and_then(|v| v.as_u64()), Some(3));
    let bad = Recorder::mcp_message_entry("mcp_response", "mcp_resp", "1.000", "x", "{oops");
    assert!(matches!(bad.entry.pointer("/message"), Some(JsonValue::Null)));
}

#[test]
fn object_of_keeps_the_later_of_two_members() {
    let o = object_of(vec![
        ("k".to_string(), JsonValue::UInt(1)),
        ("a".to_string(), JsonValue::Null),
        ("k".to_string(), JsonValue::UInt(2)),
    ]);
    assert_eq!(o.len(), 2);
    assert_eq!(o.get("k").and_then(|v| v.as_u64()), Some(2));
    assert!(o.contains_key("a"));
}

#[test]
fn mcp_request_and_response_records_name_their_kind() {
    let q = Recorder::record_mcp_request("5.000", "tools/list", r#"{"jsonrpc": "2.0", "id": 9}"#);
    assert_eq!(q.prefix, "mcp_req");
    assert_eq!(q.method, "tools/list");
    assert_eq!(q.entry.pointer("/type").and_then(|v| v.as_str()), Some("mcp_request"));
    assert_eq!(q.entry.pointer("/message/id").and_then(|v| v.as_u64()), Some(9));
    let s = Recorder::record_mcp_response("5.001", "tools/list", "not json");
    assert_eq!(s.prefix, "mcp_resp");
    assert_eq!(s.entry.pointer("/type").and_then(|v| v.as_str()), Some("mcp_response"));
    assert!(matches!(s.entry.pointer("/message"), Some(JsonValue::Null)));
    let name = Recorder::file_name("1_000002", &s.prefix, &s.method);
    assert_eq!(name, "1_000002_mcp_resp_tools_list.json");
}
