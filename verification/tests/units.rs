use fastermail::actions::contact::ContactContext;
use fastermail::actions::find_mailbox_id_by_role;
use fastermail::jmap::SetResponse;
use fastermail::jmap::email::{EmailId, State};
use fastermail::jmap::identity::IdentityId;
use fastermail::jmap::mailbox::MailboxId;
use fastermail::jmap::masked_email::MaskedEmailId;
use fastermail::jmap::vacation::VacationResponseId;
use fastermail::cli::contacts::parse_typed_values;
use fastermail::cli::emails::{email_body_view, format_address, pad, truncate, truncate_date};
use fastermail::cli::resolve::{find_by_role, match_by_name, pick_candidate, resolve_in, role_for_alias, Resolution};
use fastermail::cli::setup::{config_report, mask_token};
use fastermail::config::TokenSource;
use fastermail::error::{exit_code, Error};
use fastermail::jmap::types::{back_reference, Session};
use fastermail::json::{array_at, bool_at, str_at, JsonObject, JsonValue};
use fastermail::mcp::types::{JsonRpcRequest, JsonRpcResponse, ToolCallParams, ToolCallResult, METHOD_NOT_FOUND};
use fastermail::present::{
    email_list_body_fetch, email_list_properties, project_email_body, project_email_list, MaskedEmailState,
    EMAIL_LIST_BODY_PROPERTIES, EMAIL_LIST_PROPERTIES,
};
use fastermail::recorder::{timestamp_filename_text, timestamp_text, zero_pad, Recorder};
use serde_json::Value;

fn to_jv(v: &Value) -> JsonValue {
    match v {
        Value::Null => JsonValue::Null,
        Value::Bool(b) => JsonValue::Bool(*b),
        Value::Number(n) => {
            if let Some(u) = n.as_u64() {
                JsonValue::UInt(u)
            } else if let Some(i) = n.as_i64() {
                JsonValue::Int(i)
            } else {
                JsonValue::Decimal(n.to_string())
            }
        }
        Value::String(s) => JsonValue::Str(s.clone()),
        Value::Array(a) => JsonValue::Array(a.iter().map(to_jv).collect()),
        Value::Object(o) => {
            let mut obj = JsonObject::new();
            for (k, x) in o {
                obj.insert(k.clone(), to_jv(x));
            }
            JsonValue::Object(obj)
        }
    }
}

fn to_sj(v: &JsonValue) -> Value {
    match v {
        JsonValue::Null => Value::Null,
        JsonValue::Bool(b) => Value::Bool(*b),
        JsonValue::UInt(u) => Value::from(*u),
        JsonValue::Int(i) => Value::from(*i),
        JsonValue::Decimal(s) => serde_json::from_str(s).expect("decimal"),
        JsonValue::Str(s) => Value::String(s.clone()),
        JsonValue::Array(a) => Value::Array(a.iter().map(to_sj).collect()),
        JsonValue::Object(o) => {
            let mut m = serde_json::Map::new();
            for (k, x) in o.members() {
                m.insert(k.clone(), to_sj(x));
            }
            Value::Object(m)
        }
    }
}

fn jv(s: &str) -> JsonValue {
    to_jv(&serde_json::from_str(s).expect("test JSON"))
}

fn json_of(s: &str) -> Value {
    serde_json::from_str(s).expect("test JSON")
}

// ---- cli/emails ----

#[test]
fn truncate_handles_multibyte_boundary() {
    let truncated = truncate("café—münchen", 6);
    assert_eq!(truncated, "café—…");
}

#[test]
fn truncate_leaves_short_strings_intact() {
    assert_eq!(truncate("inbox", 13), "inbox");
}

#[test]
fn truncate_at_exact_length_keeps_text() {
    assert_eq!(truncate("inbox", 5), "inbox");
    assert_eq!(truncate("inboxes", 5), "inbo…");
    assert_eq!(truncate("", 3), "");
}

#[test]
fn truncate_date_keeps_date_and_minutes() {
    assert_eq!(truncate_date("2026-01-01T12:34:56Z"), "2026-01-01 12:34");
    assert_eq!(truncate_date("2026-01-01"), "2026-01-01");
}

#[test]
fn email_body_view_picks_fields_and_fallbacks() {
    let full = email_body_view(&jv(
        r#"{"subject": "Hi", "from": [{"name": "Al", "email": "al@x.com"}], "date": "2024-01-02", "receivedAt": "x", "textBody": "plain", "htmlBody": "<p>h</p>"}"#,
    ));
    assert_eq!(full.subject, "Hi");
    assert_eq!(full.from, "Al <al@x.com>");
    assert_eq!(full.date, "2024-01-02");
    assert_eq!(full.body.as_deref(), Some("plain"));
    let sparse = email_body_view(&jv(r#"{"receivedAt": "2024-03-04", "htmlBody": "<p>h</p>"}"#));
    assert_eq!(sparse.subject, "(no subject)");
    assert_eq!(sparse.from, "");
    assert_eq!(sparse.date, "2024-03-04");
    assert_eq!(sparse.body.as_deref(), Some("<p>h</p>"));
    let empty = email_body_view(&jv("{}"));
    assert_eq!(empty.date, "");
    assert!(empty.body.is_none());
}

#[test]
fn format_address_prefers_name() {
    assert_eq!(format_address(&jv(r#"{"name": "Alice", "email": "a@b.com"}"#)), "Alice <a@b.com>");
    assert_eq!(format_address(&jv(r#"{"email": "a@b.com"}"#)), "a@b.com");
}

#[test]
fn pad_fills_to_width() {
    assert_eq!(pad("ab", 4), "ab  ");
    assert_eq!(pad("abcdef", 4), "abcdef");
}

// ---- cli/resolve ----

#[test]
fn test_role_for_alias() {
    assert_eq!(role_for_alias("inbox"), Some("inbox"));
    assert_eq!(role_for_alias("spam"), Some("junk"));
    assert_eq!(role_for_alias("archive"), Some("archive"));
    assert_eq!(role_for_alias("projects"), None);
}

#[test]
fn test_find_by_role() {
    let mailboxes = vec![
        jv(r#"{"id": "mb-1", "name": "Inbox", "role": "inbox"}"#),
        jv(r#"{"id": "mb-2", "name": "Sent", "role": "sent"}"#),
    ];
    assert_eq!(find_by_role(&mailboxes, "inbox"), Some("mb-1".to_string()));
    assert_eq!(find_by_role(&mailboxes, "drafts"), None);
}

#[test]
fn test_match_by_name_exact() {
    let mailboxes = vec![jv(r#"{"id": "mb-1", "name": "Projects"}"#), jv(r#"{"id": "mb-2", "name": "Personal"}"#)];
    let result = match_by_name(&mailboxes, "projects");
    assert_eq!(result.len(), 1);
    assert_eq!(result[0].0, "mb-1");
}

#[test]
fn test_match_by_name_prefix() {
    let mailboxes = vec![jv(r#"{"id": "mb-1", "name": "Projects"}"#), jv(r#"{"id": "mb-2", "name": "Personal"}"#)];
    let result = match_by_name(&mailboxes, "proj");
    assert_eq!(result.len(), 1);
    assert_eq!(result[0].0, "mb-1");
}

#[test]
fn test_match_by_name_substring() {
    let mailboxes = vec![jv(r#"{"id": "mb-1", "name": "Projects"}"#), jv(r#"{"id": "mb-2", "name": "Personal"}"#)];
    let result = match_by_name(&mailboxes, "ject");
    assert_eq!(result.len(), 1);
    assert_eq!(result[0].0, "mb-1");
}

#[test]
fn test_match_by_name_multiple_prefix() {
    let mailboxes = vec![jv(r#"{"id": "mb-1", "name": "Projects"}"#), jv(r#"{"id": "mb-2", "name": "Promotions"}"#)];
    let result = match_by_name(&mailboxes, "pro");
    assert_eq!(result.len(), 2);
}

#[test]
fn test_match_by_name_no_match() {
    let mailboxes = vec![jv(r#"{"id": "mb-1", "name": "Projects"}"#)];
    let result = match_by_name(&mailboxes, "xyz");
    assert!(result.is_empty());
}

#[test]
fn test_exact_beats_prefix() {
    let mailboxes = vec![jv(r#"{"id": "mb-1", "name": "Inbox"}"#), jv(r#"{"id": "mb-2", "name": "In"}"#)];
    let result = match_by_name(&mailboxes, "in");
    assert_eq!(result.len(), 1);
    assert_eq!(result[0].0, "mb-2");
}

#[test]
fn resolve_in_prefers_role_alias() {
    let mailboxes = vec![
        jv(r#"{"id": "mb-1", "name": "Bulk", "role": "junk"}"#),
        jv(r#"{"id": "mb-2", "name": "Spam folder"}"#),
    ];
    match resolve_in(&mailboxes, "Spam", false).expect("resolves") {
        Resolution::Found(id) => assert_eq!(id, "mb-1"),
        Resolution::Choose(_) => panic!("expected one mailbox"),
    }
}

#[test]
fn resolve_in_reports_no_match_and_ambiguity() {
    let mailboxes = vec![jv(r#"{"id": "mb-1", "name": "Projects"}"#), jv(r#"{"id": "mb-2", "name": "Promotions"}"#)];
    let err = resolve_in(&mailboxes, "xyz", true).err().expect("no match");
    assert_eq!(err.message(), "invalid params: no mailbox matching: xyz");
    match resolve_in(&mailboxes, "pro", true).expect("resolves") {
        Resolution::Choose(c) => {
            assert_eq!(c.len(), 2);
            assert_eq!(pick_candidate(&c, "Promotions  (mb-2)").expect("second"), "mb-2");
            assert!(pick_candidate(&c, "Promotions").is_err());
        }
        Resolution::Found(_) => panic!("expected candidates"),
    }
    let refused = resolve_in(&mailboxes, "pro", false).err().expect("ambiguous outside a terminal");
    assert_eq!(refused.message(), "invalid params: ambiguous mailbox \"pro\", candidates: Projects, Promotions");
    assert_eq!(resolve_in(&mailboxes, "Proj", false).ok().map(|r| matches!(r, Resolution::Found(id) if id == "mb-1")), Some(true));
}

#[test]
fn find_mailbox_id_by_role_finds_first() {
    let mailboxes = vec![jv(r#"{"id": "mb-1", "role": "trash"}"#), jv(r#"{"id": "mb-2", "role": "trash"}"#)];
    assert_eq!(find_mailbox_id_by_role(&mailboxes, "trash"), Some("mb-1".to_string()));
    assert_eq!(find_mailbox_id_by_role(&mailboxes, "inbox"), None);
}

// ---- cli/contacts ----

#[test]
fn parse_typed_values_with_type_prefix() {
    let input = vec!["work:a@b.com".to_string()];
    let result: Vec<Value> = parse_typed_values(&input, "address").iter().map(to_sj).collect();
    assert_eq!(result.len(), 1);
    assert_eq!(result[0]["type"], "work");
    assert_eq!(result[0]["address"], "a@b.com");
}

#[test]
fn parse_typed_values_without_prefix() {
    let input = vec!["a@b.com".to_string()];
    let result: Vec<Value> = parse_typed_values(&input, "address").iter().map(to_sj).collect();
    assert_eq!(result.len(), 1);
    assert_eq!(result[0]["type"], "other");
    assert_eq!(result[0]["address"], "a@b.com");
}

#[test]
fn parse_typed_values_private_prefix() {
    let input = vec!["private:+1234".to_string()];
    let result: Vec<Value> = parse_typed_values(&input, "number").iter().map(to_sj).collect();
    assert_eq!(result.len(), 1);
    assert_eq!(result[0]["type"], "private");
    assert_eq!(result[0]["number"], "+1234");
}

#[test]
fn parse_typed_values_unknown_prefix_treated_as_value() {
    let input = vec!["home:+1234".to_string()];
    let result: Vec<Value> = parse_typed_values(&input, "number").iter().map(to_sj).collect();
    assert_eq!(result[0]["type"], "other");
    assert_eq!(result[0]["number"], "home:+1234");
}

#[test]
fn parse_typed_values_empty_input() {
    let result = parse_typed_values(&[], "address");
    assert!(result.is_empty());
}

#[test]
fn parse_typed_values_multiple() {
    let input = vec!["work:a@b.com".to_string(), "private:c@d.com".to_string(), "e@f.com".to_string()];
    let result: Vec<Value> = parse_typed_values(&input, "address").iter().map(to_sj).collect();
    assert_eq!(result.len(), 3);
    assert_eq!(result[0]["type"], "work");
    assert_eq!(result[1]["type"], "private");
    assert_eq!(result[2]["type"], "other");
}

// ---- cli/setup ----

#[test]
fn config_report_masks_token_and_names_source() {
    let env = config_report("/h/.config/fastermail/config.toml", true, &Ok(("fmu1-abcdefghijklmnop".to_string(), TokenSource::EnvVar)));
    assert_eq!(env.token, "fmu1-abc...mnop");
    assert_eq!(env.token_source, "FASTMAIL_API_TOKEN env var");
    assert_eq!(env.shown_path(), "/h/.config/fastermail/config.toml");
    let v = to_sj(&env.to_json());
    assert_eq!(v["config_path"], "/h/.config/fastermail/config.toml");
    assert_eq!(v["config_exists"], true);
    assert_eq!(v["token_source"], "FASTMAIL_API_TOKEN env var");
    assert_eq!(v["token"], "fmu1-abc...mnop");
    let file = config_report("/p", false, &Ok(("short".to_string(), TokenSource::ConfigFile)));
    assert_eq!(file.token, "*****");
    assert_eq!(file.token_source, "config file");
    assert_eq!(file.shown_path(), "(not created)");
    let none = config_report("/p", false, &Err(Error::MissingToken));
    assert_eq!(none.token, "(not set)");
    assert_eq!(none.token_source, "none");
}

#[test]
fn mask_token_hides_middle() {
    assert_eq!(mask_token("fmu1-abcdefghijklmnop"), "fmu1-abc...mnop");
    assert_eq!(mask_token("short"), "*****");
    assert_eq!(mask_token("é"), "*");
    assert_eq!(mask_token("ééééééé"), "*******");
    assert_eq!(mask_token("éabcdefghijkl"), "éabcdefg...ijkl");
}

#[test]
fn ids_show_as_their_text() {
    assert_eq!(EmailId("e1".into()).to_string(), "e1");
    assert_eq!(State("s9".into()).to_string(), "s9");
    assert_eq!(IdentityId("i1".into()).to_string(), "i1");
    assert_eq!(MailboxId("mb1".into()).to_string(), "mb1");
    assert_eq!(MaskedEmailId("m1".into()).to_string(), "m1");
    assert_eq!(VacationResponseId("singleton".into()).to_string(), "singleton");
}

// ---- jmap/types ----

#[test]
fn back_reference_builds_correct_structure() {
    let bref = to_sj(&back_reference("call-0", "Email/query", "/ids"));
    assert_eq!(bref["resultOf"], "call-0");
    assert_eq!(bref["name"], "Email/query");
    assert_eq!(bref["path"], "/ids");
}

#[test]
fn primary_account_id_returns_core_account() {
    let mut session = Session::default();
    session.primary_accounts.insert("urn:ietf:params:jmap:core".to_string(), "acct-123".to_string());
    session.primary_accounts.insert("urn:ietf:params:jmap:mail".to_string(), "acct-456".to_string());

    assert_eq!(session.primary_account_id(), Some("acct-123"));
}

#[test]
fn primary_account_id_returns_none_when_empty() {
    let session = Session::default();
    assert!(session.primary_account_id().is_none());
}

#[test]
fn session_from_json_reads_members_and_rejects_bad_shape() {
    let s = Session::from_json(&jv(
        r#"{"username": "u", "apiUrl": "https://a/api/", "downloadUrl": "https://a/d/",
            "uploadUrl": "https://a/u/", "primaryAccounts": {"urn:ietf:params:jmap:core": "A1"},
            "accounts": {"A1": {"name": "u", "isReadOnly": false}}}"#,
    ))
    .expect("well formed");
    assert_eq!(s.api_url, "https://a/api/");
    assert_eq!(s.primary_account_id(), Some("A1"));
    assert_eq!(s.accounts.len(), 1);
    let bad = Session::from_json(&jv(r#"{"username": 1}"#));
    assert!(matches!(bad, Err(Error::Json(_))));
}

// ---- json ----

#[test]
fn reads_nested_and_indexed_paths() {
    let v = jv(r#"{"name": "Inbox", "counts": {"unread": 3}, "ids": ["a", "b"], "active": true}"#);

    assert_eq!(str_at(&v, "/name"), Some("Inbox"));
    assert_eq!(str_at(&v, "/ids/0"), Some("a"));
    assert_eq!(bool_at(&v, "/active"), Some(true));
    assert_eq!(array_at(&v, "/ids").map(Vec::len), Some(2));
}

#[test]
fn missing_or_mistyped_paths_yield_none() {
    let v = jv(r#"{"name": "Inbox"}"#);

    assert_eq!(str_at(&v, "/missing"), None);
    assert_eq!(bool_at(&v, "/name"), None);
}

#[test]
fn pointer_unescapes_tokens() {
    let v = jv(r#"{"a/b": {"m~n": "x"}}"#);
    assert_eq!(str_at(&v, "/a~1b/m~0n"), Some("x"));
    assert_eq!(str_at(&v, "/ids/01"), None);
}

#[test]
fn object_insert_then_get_reads_back() {
    let mut o = JsonObject::new();
    o.insert("b".to_string(), JsonValue::UInt(2));
    o.insert("a".to_string(), JsonValue::UInt(1));
    o.insert("b".to_string(), JsonValue::UInt(3));
    assert_eq!(o.len(), 2);
    assert!(matches!(o.get("b"), Some(JsonValue::UInt(3))));
    let keys: Vec<&str> = o.members().iter().map(|(k, _)| k.as_str()).collect();
    assert_eq!(keys, vec!["a", "b"]);
    assert!(matches!(o.remove("a"), Some(JsonValue::UInt(1))));
    assert!(o.get("a").is_none());
}

// ---- error ----

#[test]
fn error_messages_and_exit_codes() {
    assert_eq!(Error::invalid("x").message(), "invalid params: x");
    assert_eq!(Error::jmap("Email/get", "boom").message(), "JMAP error in Email/get: boom");
    assert_eq!(Error::MissingToken.message(), "FASTMAIL_API_TOKEN environment variable not set");
    assert_eq!(exit_code(&Error::MissingToken), 1);
    assert_eq!(exit_code(&Error::invalid("x")), 2);
    assert_eq!(exit_code(&Error::jmap("m", "x")), 3);
    assert_eq!(exit_code(&Error::Http("x".to_string())), 3);
}

// ---- mcp/types ----

#[test]
fn parse_initialize_request() {
    let req = JsonRpcRequest::from_json(&jv(
        r#"{
        "jsonrpc": "2.0",
        "id": 1,
        "method": "initialize",
        "params": {
            "protocolVersion": "2025-11-25",
            "capabilities": {},
            "clientInfo": {"name": "TestClient", "version": "1.0"}
        }
    }"#,
    ))
    .expect("should parse initialize request");

    assert_eq!(req.method, "initialize");
    assert_eq!(req.id.as_ref().map(to_sj), Some(Value::from(1)));
    let params = to_sj(&req.params);
    assert_eq!(params["protocolVersion"], "2025-11-25");
    assert_eq!(params["clientInfo"]["name"], "TestClient");
}

#[test]
fn parse_notification_has_no_id() {
    let req = JsonRpcRequest::from_json(&jv(r#"{"jsonrpc": "2.0", "method": "notifications/initialized"}"#))
        .expect("should parse notification");
    assert_eq!(req.method, "notifications/initialized");
    assert!(req.id.is_none());
}

#[test]
fn parse_tools_call_request() {
    let req = JsonRpcRequest::from_json(&jv(
        r#"{"jsonrpc": "2.0", "id": 2, "method": "tools/call",
            "params": {"name": "list_mailboxes", "arguments": {"role": "inbox"}}}"#,
    ))
    .expect("should parse tools/call request");
    let params = ToolCallParams::from_json(&req.params).expect("should parse tool call params");
    assert_eq!(params.name, "list_mailboxes");
    assert_eq!(to_sj(&params.arguments)["role"], "inbox");
}

#[test]
fn success_response_serializes_correctly() {
    let resp = JsonRpcResponse::success(JsonValue::UInt(1), jv(r#"{"ok": true}"#));
    let json = serde_json::to_string(&to_sj(&resp.to_json())).expect("should serialize response");
    assert!(json.contains("\"jsonrpc\":\"2.0\""));
    assert!(json.contains("\"result\""));
    assert!(!json.contains("\"error\""));
}

#[test]
fn error_response_serializes_correctly() {
    let resp = JsonRpcResponse::error(JsonValue::UInt(1), METHOD_NOT_FOUND, "Method not found".to_string());
    let json = serde_json::to_string(&to_sj(&resp.to_json())).expect("should serialize error response");
    assert!(json.contains("\"error\""));
    assert!(json.contains("-32601"));
    assert!(!json.contains("\"result\""));
}

#[test]
fn tool_call_result_text() {
    let result = ToolCallResult::text("hello".to_string());
    assert!(!result.is_error);
    assert_eq!(result.content.len(), 1);
    assert_eq!(result.content[0].text, "hello");
}

#[test]
fn tool_call_result_error() {
    let result = ToolCallResult::error("something failed".to_string());
    assert!(result.is_error);
    assert_eq!(result.content[0].text, "something failed");
}

// ---- present ----

#[test]
fn project_email_body_resolves_parts_and_synthesizes_date() {
    let mut email = jv(
        r#"{
        "id": "e001", "subject": "Test",
        "from": [{"email": "a@b.com"}], "to": [{"email": "c@d.com"}],
        "receivedAt": "2026-01-01T00:00:00Z",
        "textBody": [{"partId": "p1"}], "htmlBody": [{"partId": "p2"}],
        "bodyValues": {"p1": {"value": "plain text body"}, "p2": {"value": "<p>html body</p>"}}
    }"#,
    );
    project_email_body(&mut email);
    let email = to_sj(&email);
    assert_eq!(email["textBody"], "plain text body");
    assert_eq!(email["htmlBody"], "<p>html body</p>");
    assert_eq!(email["date"], "2026-01-01T00:00:00Z");
    assert!(email.get("bodyValues").is_none(), "bodyValues should be removed");
}

#[test]
fn project_email_list_projects_each_element() {
    let mut list = jv(
        r#"[
        {"id": "e001", "receivedAt": "2026-01-01T00:00:00Z", "textBody": [{"partId": "p1"}], "bodyValues": {"p1": {"value": "body one"}}},
        {"id": "e002", "receivedAt": "2026-01-02T00:00:00Z", "textBody": [{"partId": "p1"}], "bodyValues": {"p1": {"value": "body two"}}}
    ]"#,
    );
    project_email_list(&mut list);
    let list = to_sj(&list);
    let arr = list.as_array().expect("array");
    assert_eq!(arr[0]["textBody"], "body one");
    assert_eq!(arr[0]["date"], "2026-01-01T00:00:00Z");
    assert!(arr[0].get("bodyValues").is_none());
    assert_eq!(arr[1]["textBody"], "body two");
}

#[test]
fn project_handles_missing_body_gracefully() {
    let mut email = jv(r#"{"id": "e001", "subject": "no body"}"#);
    project_email_body(&mut email);
    let email = to_sj(&email);
    assert_eq!(email["id"], "e001");
    assert!(email.get("date").is_none());
}

#[test]
fn list_properties_switch_on_body() {
    assert_eq!(email_list_properties(false), EMAIL_LIST_PROPERTIES);
    assert_eq!(email_list_properties(true), EMAIL_LIST_BODY_PROPERTIES);
    assert!(!email_list_body_fetch(false).text);
    assert!(email_list_body_fetch(true).text && email_list_body_fetch(true).html);
}

#[test]
fn masked_email_state_parses_labels() {
    assert_eq!(MaskedEmailState::parse("pending").expect("pending").label(), "pending");
    assert!(MaskedEmailState::parse("bogus").is_err());
    assert!(MaskedEmailState::parse_settable("pending").is_err());
    assert_eq!(MaskedEmailState::parse_settable("deleted").expect("deleted").label(), "deleted");
}

// ---- recorder ----

#[test]
fn recorder_names_and_timestamps() {
    assert_eq!(zero_pad(7, 3), "007");
    assert_eq!(zero_pad(1234, 3), "1234");
    assert_eq!(timestamp_text(0, 5), "0.005");
    assert_eq!(timestamp_filename_text(86400, 42), "86400_000042");
    let name = Recorder::file_name("86400_000042", "jmap", "Email/get");
    assert_eq!(name, "86400_000042_jmap_Email_get.json");
    let _ = json_of("{}");
}

#[test]
fn recorder_entries_hold_their_parts() {
    let jm = Recorder::jmap_entry("1.500", "send_email", JsonValue::string("req"), JsonValue::string("resp"));
    assert_eq!(jm.prefix, "jmap");
    assert_eq!(jm.method, "send_email");
    assert_eq!(to_sj(&jm.entry)["type"], "jmap");
    assert_eq!(to_sj(&jm.entry)["timestamp"], "1.500");
    assert_eq!(to_sj(&jm.entry)["request"], "req");
    assert_eq!(to_sj(&jm.entry)["response"], "resp");
    let mc = Recorder::mcp_entry("mcp_request", "mcp_req", "2.000", "tools/list", JsonValue::string("raw"));
    assert_eq!(mc.prefix, "mcp_req");
    assert_eq!(mc.method, "tools/list");
    assert_eq!(to_sj(&mc.entry)["type"], "mcp_request");
    assert_eq!(to_sj(&mc.entry)["timestamp"], "2.000");
    assert_eq!(to_sj(&mc.entry)["method"], "tools/list");
    assert_eq!(to_sj(&mc.entry)["message"], "raw");
}

// ---- round trips ----

#[test]
fn states_and_contexts_read_back() {
    for s in [MaskedEmailState::Pending, MaskedEmailState::Enabled, MaskedEmailState::Disabled, MaskedEmailState::Deleted] {
        assert_eq!(MaskedEmailState::parse(s.label()).expect("reads back"), s);
    }
    for c in [ContactContext::Work, ContactContext::Private, ContactContext::Other] {
        assert_eq!(ContactContext::from_label(c.label()), c);
        let mut m = JsonObject::new();
        if let Some(k) = c.wire_key() {
            m.insert(k.to_string(), JsonValue::Bool(true));
        }
        assert_eq!(ContactContext::from_map(&m), c);
    }
}

#[test]
fn set_response_is_passed_on_faithfully() {
    let sent = json_of(
        r#"{"oldState": "s1", "newState": null, "created": {"k": {"id": "x"}}, "destroyed": ["d1", "d2"],
            "notUpdated": {"u": {"type": "notFound"}}}"#,
    );
    let resp = SetResponse::from_json(&to_jv(&sent)).expect("well formed");
    let back = to_sj(&resp.to_json());
    for (k, v) in sent.as_object().expect("object") {
        assert_eq!(&back[k.as_str()], v, "member {k}");
    }
    assert_eq!(back["updated"], json_of("{}"));
    assert_eq!(back.as_object().expect("object").len(), 8);
    assert!(matches!(SetResponse::from_json(&to_jv(&json_of(r#"{"destroyed": [1]}"#))), Err(Error::Json(_))));
}

#[test]
fn is_whitespace_agrees_with_std() {
    for c in (0u32..0x11000).filter_map(char::from_u32) {
        assert_eq!(fastermail::text::is_whitespace(c), c.is_whitespace(), "U+{:04X}", c as u32);
    }
    assert!(fastermail::text::is_whitespace('\u{3000}'));
    assert!(!fastermail::text::is_whitespace('\u{200B}'));
}
