use fastermail::actions::{Action, Context};
use fastermail::error::Error;
use fastermail::jmap::client::{Exchange, HttpTransport, JmapClient};
use fastermail::json::{JsonObject, JsonValue};
use serde_json::Value;

use fastermail::actions::identity::ListIdentities;
use fastermail::actions::mailbox::{ListMailboxes, ManageMailbox};
use fastermail::actions::masked_email::{CreateMaskedEmail, ListMaskedEmails, UpdateMaskedEmail};
use fastermail::actions::vacation::{GetVacationResponse, SetVacationResponse};
use fastermail::actions::{project_fields, project_fields_array};
use fastermail::present::{FieldChange, MaskedEmailState};

// ---- vacation ----

#[test]
fn get_vacation_response_returns_faithful_unprojected_data() {
    let mut mock = Exchange::new(MockJmap::start());
    mock.transport.handle_method(
        "VacationResponse/get",
        json_of(r#"{"methodResponses": [["VacationResponse/get", {"list": [{"id": "singleton", "isEnabled": true, "fromDate": "2026-01-01", "toDate": "2026-01-15", "subject": "OOO", "textBody": "Away", "htmlBody": "<p>Away</p>"}]}, "call-0"]]}"#),
    );
    let ctx = mock_ctx(&mut mock);
    let result = to_sj(&GetVacationResponse.run(&ctx, &mut mock).expect("run"));

    assert_eq!(result["id"], "singleton");
    assert_eq!(result["isEnabled"], true);
    assert_eq!(result["fromDate"], "2026-01-01");
    assert_eq!(result["toDate"], "2026-01-15");
    assert_eq!(result["subject"], "OOO");
    assert_eq!(result["textBody"], "Away");
    assert_eq!(result["htmlBody"], "<p>Away</p>");
}

#[test]
fn get_vacation_response_returns_empty_when_no_data() {
    let mut mock = Exchange::new(MockJmap::start());
    mock.transport.handle_method(
        "VacationResponse/get",
        json_of(r#"{"methodResponses": [["VacationResponse/get", {"list": []}, "call-0"]]}"#),
    );
    let ctx = mock_ctx(&mut mock);
    let result = to_sj(&GetVacationResponse.run(&ctx, &mut mock).expect("run should succeed"));
    assert_eq!(result, json_of("{}"));
}

#[test]
fn set_vacation_response_requires_is_enabled() {
    let client = JmapClient::new("http://localhost:0".to_string(), "fake".to_string());
    let ctx = Context { jmap: client, account_id: "test".to_string(), recorder: None };
    let mut t = Exchange::new(MockJmap::start());

    let action = SetVacationResponse { is_enabled: None, ..Default::default() };

    let err = action.run(&ctx, &mut t).expect_err("should fail without isEnabled");
    assert!(err.message().contains("isEnabled"), "error should mention isEnabled: {}", err.message());
}

#[test]
fn set_vacation_response_enables_successfully() {
    let mut mock = Exchange::new(MockJmap::start());
    mock.transport.handle_method(
        "VacationResponse/set",
        json_of(r#"{"methodResponses": [["VacationResponse/set", {"updated": {"singleton": null}}, "call-0"]]}"#),
    );
    let ctx = mock_ctx(&mut mock);
    let action = SetVacationResponse { is_enabled: Some(true), ..Default::default() };
    action.run(&ctx, &mut mock).expect("run should succeed");
    let sent = &mock.transport.requests[0];
    assert_eq!(sent["methodCalls"][0][1]["update"]["singleton"]["isEnabled"], true);
}

#[test]
fn set_vacation_response_surfaces_set_errors() {
    let mut mock = Exchange::new(MockJmap::start());
    mock.transport.handle_method(
        "VacationResponse/set",
        json_of(r#"{"methodResponses": [["VacationResponse/set", {"updated": {}, "notUpdated": {"singleton": {"type": "invalidProperties", "description": "bad date"}}}, "call-0"]]}"#),
    );
    let ctx = mock_ctx(&mut mock);
    let action = SetVacationResponse { is_enabled: Some(true), ..Default::default() };
    let err = action.run(&ctx, &mut mock).expect_err("set error should surface");
    assert!(err.message().contains("bad date"), "error should carry the SetError description: {}", err.message());
}

#[test]
fn set_vacation_response_includes_optional_fields() {
    let mut mock = Exchange::new(MockJmap::start());
    mock.transport.handle_method(
        "VacationResponse/set",
        json_of(r#"{"methodResponses": [["VacationResponse/set", {"updated": {"singleton": null}}, "call-0"]]}"#),
    );
    let ctx = mock_ctx(&mut mock);
    let action = SetVacationResponse {
        is_enabled: Some(true),
        from_date: FieldChange::Value("2026-06-01T00:00:00Z".to_string()),
        subject: FieldChange::Value("On vacation".to_string()),
        text_body: FieldChange::Value("I'm away".to_string()),
        ..Default::default()
    };
    action.run(&ctx, &mut mock).expect("set with optional fields should succeed");
    let patch = &mock.transport.requests[0]["methodCalls"][0][1]["update"]["singleton"];
    assert_eq!(patch["fromDate"], "2026-06-01T00:00:00Z");
    assert_eq!(patch["subject"], "On vacation");
    assert_eq!(patch["textBody"], "I'm away");
    assert!(patch.get("toDate").is_none(), "kept fields are not sent");
}

// ---- identities ----

#[test]
fn list_identities_returns_faithful_unprojected_data() {
    let mut mock = Exchange::new(MockJmap::start());
    mock.transport.handle_method(
        "Identity/get",
        json_of(
            r#"{"methodResponses": [["Identity/get", {
            "list": [{
                "id": "id1", "name": "Alice", "email": "alice@example.com",
                "replyTo": null, "textSignature": "sig1", "mayDelete": true
            }]
        }, "call-0"]]}"#,
        ),
    );
    let ctx = mock_ctx(&mut mock);
    let result = to_sj(&ListIdentities.run(&ctx, &mut mock).expect("run"));
    let arr = result.as_array().expect("array");
    assert_eq!(arr.len(), 1);
    assert_eq!(arr[0]["id"], "id1");
    assert_eq!(arr[0]["name"], "Alice");
    assert_eq!(arr[0]["email"], "alice@example.com");
    assert_eq!(arr[0]["textSignature"], "sig1");
    assert_eq!(arr[0]["mayDelete"], true);
}

#[test]
fn list_identities_returns_empty_for_no_data() {
    let mut mock = Exchange::new(MockJmap::start());
    mock.transport.handle_method("Identity/get", json_of(r#"{"methodResponses": [["Identity/get", {"list": []}, "call-0"]]}"#));
    let ctx = mock_ctx(&mut mock);
    let result = to_sj(&ListIdentities.run(&ctx, &mut mock).expect("empty list should succeed"));
    let arr = result.as_array().expect("should be array");
    assert!(arr.is_empty(), "should return empty array");
}

// ---- masked email ----

#[test]
fn list_masked_emails_returns_faithful_list() {
    let mut mock = Exchange::new(MockJmap::start());
    mock.transport.handle_method(
        "MaskedEmail/get",
        json_of(
            r#"{"methodResponses": [["MaskedEmail/get", {
            "list": [{
                "id": "me1", "email": "abc@fastmail.com", "forDomain": "example.com",
                "description": "Test", "state": "enabled",
                "createdAt": "2026-01-01", "lastMessageAt": "2026-03-01"
            }]
        }, "call-0"]]}"#,
        ),
    );
    let ctx = mock_ctx(&mut mock);
    let result = to_sj(&ListMaskedEmails { state: None }.run(&ctx, &mut mock).expect("run"));
    let arr = result.as_array().expect("array");
    assert_eq!(arr.len(), 1);
    assert_eq!(arr[0]["id"], "me1");
    assert_eq!(arr[0]["lastMessageAt"], "2026-03-01");
}

#[test]
fn create_masked_email_returns_faithful_set_response() {
    let mut mock = Exchange::new(MockJmap::start());
    mock.transport.handle_method(
        "MaskedEmail/set",
        json_of(
            r#"{"methodResponses": [["MaskedEmail/set", {
            "created": {"new-masked": {"id": "me-new", "email": "new@fastmail.com", "state": "enabled", "forDomain": "mysite.com"}}
        }, "call-0"]]}"#,
        ),
    );
    let ctx = mock_ctx(&mut mock);
    let result = to_sj(
        &CreateMaskedEmail { for_domain: "mysite.com".to_string(), description: String::new(), email_prefix: String::new() }
            .run(&ctx, &mut mock)
            .expect("run"),
    );
    assert_eq!(result["created"]["new-masked"]["id"], "me-new");
    assert_eq!(result["created"]["new-masked"]["forDomain"], "mysite.com");
}

#[test]
fn create_masked_email_surfaces_set_errors() {
    let mut mock = Exchange::new(MockJmap::start());
    mock.transport.handle_method(
        "MaskedEmail/set",
        json_of(
            r#"{"methodResponses": [["MaskedEmail/set", {
            "created": {},
            "notCreated": {"new-masked": {"type": "forbidden", "description": "nope"}}
        }, "call-0"]]}"#,
        ),
    );
    let ctx = mock_ctx(&mut mock);
    let err = CreateMaskedEmail { for_domain: String::new(), description: String::new(), email_prefix: String::new() }
        .run(&ctx, &mut mock)
        .expect_err("should surface set error");
    assert!(err.message().contains("nope"));
}

#[test]
fn update_masked_email_requires_id() {
    let client = JmapClient::new("http://localhost:0".to_string(), "fake".to_string());
    let ctx = Context { jmap: client, account_id: "test".to_string(), recorder: None };
    let mut t = Exchange::new(MockJmap::start());
    let err = UpdateMaskedEmail { id: String::new(), state: MaskedEmailState::Enabled }
        .run(&ctx, &mut t)
        .expect_err("should require id");
    assert!(matches!(err, Error::InvalidParams(_)));
}

#[test]
fn update_masked_email_returns_faithful_set_response() {
    let mut mock = Exchange::new(MockJmap::start());
    mock.transport.handle_method(
        "MaskedEmail/set",
        json_of(r#"{"methodResponses": [["MaskedEmail/set", {"updated": {"me1": null}}, "call-0"]]}"#),
    );
    let ctx = mock_ctx(&mut mock);
    let result = to_sj(
        &UpdateMaskedEmail { id: "me1".to_string(), state: MaskedEmailState::Disabled }
            .run(&ctx, &mut mock)
            .expect("run"),
    );
    assert!(result["updated"].as_object().expect("updated map").contains_key("me1"));
    assert_eq!(mock.transport.requests[0]["methodCalls"][0][1]["update"]["me1"]["state"], "disabled");
}

#[test]
fn update_masked_email_surfaces_set_errors() {
    let mut mock = Exchange::new(MockJmap::start());
    mock.transport.handle_method(
        "MaskedEmail/set",
        json_of(
            r#"{"methodResponses": [["MaskedEmail/set", {
            "updated": {},
            "notUpdated": {"me1": {"type": "notFound", "description": "gone"}}
        }, "call-0"]]}"#,
        ),
    );
    let ctx = mock_ctx(&mut mock);
    let err = UpdateMaskedEmail { id: "me1".to_string(), state: MaskedEmailState::Disabled }
        .run(&ctx, &mut mock)
        .expect_err("should surface set error");
    assert!(err.message().contains("gone"));
}

// ---- mailboxes ----

#[test]
fn list_mailboxes_returns_faithful_unprojected_data() {
    let mut mock = Exchange::new(MockJmap::start());
    mock.transport.handle_method(
        "Mailbox/get",
        json_of(
            r#"{"methodResponses": [["Mailbox/get", {
            "accountId": "u1234567",
            "list": [
                {"id": "mb1", "name": "Inbox", "role": "inbox", "totalEmails": 42, "unreadEmails": 3, "parentId": null, "sortOrder": 1},
                {"id": "mb2", "name": "Sent", "role": "sent", "totalEmails": 10, "unreadEmails": 0, "parentId": null}
            ]
        }, "call-0"]]}"#,
        ),
    );
    let ctx = mock_ctx(&mut mock);
    let result = to_sj(&ListMailboxes { role: String::new() }.run(&ctx, &mut mock).expect("list should succeed"));
    let arr = result.as_array().expect("result should be array");

    assert_eq!(arr.len(), 2);
    assert_eq!(arr[0]["id"], "mb1");
    assert_eq!(arr[0]["name"], "Inbox");
    assert_eq!(arr[0]["role"], "inbox");
    assert_eq!(arr[1]["id"], "mb2");
    assert_eq!(arr[1]["name"], "Sent");
    assert_eq!(arr[0]["sortOrder"], 1, "faithful data keeps sortOrder");
}

fn parse(action: &str, name: &str, mailbox_id: &str, parent_id: &str) -> Result<ManageMailbox, Error> {
    ManageMailbox::parse(action, name.to_string(), mailbox_id.to_string(), parent_id.to_string())
}

#[test]
fn manage_mailbox_requires_action() {
    let err = parse("", "", "", "").expect_err("should fail without action");
    assert!(matches!(err, Error::InvalidParams(_)));
}

#[test]
fn manage_mailbox_create_requires_name() {
    let err = parse("create", "", "", "").expect_err("should fail without name");
    assert!(matches!(err, Error::InvalidParams(_)));
}

#[test]
fn manage_mailbox_rename_requires_mailbox_id() {
    let err = parse("rename", "NewName", "", "").expect_err("should fail without mailbox_id");
    assert!(matches!(err, Error::InvalidParams(_)));
}

#[test]
fn manage_mailbox_rename_requires_name() {
    let err = parse("rename", "", "mb1", "").expect_err("should fail without name");
    assert!(matches!(err, Error::InvalidParams(_)));
}

#[test]
fn manage_mailbox_delete_requires_mailbox_id() {
    let err = parse("delete", "", "", "").expect_err("should fail without mailbox_id");
    assert!(matches!(err, Error::InvalidParams(_)));
}

#[test]
fn manage_mailbox_rejects_invalid_action() {
    let err = parse("archive", "", "", "").expect_err("should reject invalid action");
    assert!(matches!(err, Error::InvalidParams(_)));
    assert_eq!(err.message(), "invalid params: action must be create, rename, or delete");
}

#[test]
fn manage_mailbox_create_succeeds() {
    let mut mock = Exchange::new(MockJmap::start());
    mock.transport.handle_method(
        "Mailbox/set",
        json_of(r#"{"methodResponses": [["Mailbox/set", {"created": {"new-mailbox": {"id": "mbox-new"}}}, "call-0"]]}"#),
    );
    let ctx = mock_ctx(&mut mock);
    let action = ManageMailbox::Create { name: "Projects".to_string(), parent_id: String::new() };
    let data = action.run(&ctx, &mut mock).expect("create should succeed");
    let result = to_sj(&data);
    assert_eq!(result["created"]["new-mailbox"]["id"], "mbox-new");
    assert_eq!(action.resolved_id(&data).as_deref(), Some("mbox-new"));
}

#[test]
fn manage_mailbox_delete_succeeds() {
    let mut mock = Exchange::new(MockJmap::start());
    mock.transport.handle_method(
        "Mailbox/set",
        json_of(r#"{"methodResponses": [["Mailbox/set", {"destroyed": ["mb-del"]}, "call-0"]]}"#),
    );
    let ctx = mock_ctx(&mut mock);
    let action = ManageMailbox::Delete { mailbox_id: "mb-del".to_string() };
    let data = action.run(&ctx, &mut mock).expect("delete should succeed");
    let result = to_sj(&data);
    assert_eq!(result["destroyed"][0], "mb-del");
    assert_eq!(action.resolved_id(&data).as_deref(), Some("mb-del"));
}

#[test]
fn manage_mailbox_rename_succeeds() {
    let mut mock = Exchange::new(MockJmap::start());
    mock.transport.handle_method(
        "Mailbox/set",
        json_of(r#"{"methodResponses": [["Mailbox/set", {"updated": {"mb1": null}}, "call-0"]]}"#),
    );
    let ctx = mock_ctx(&mut mock);
    let action = ManageMailbox::Rename { mailbox_id: "mb1".to_string(), name: "NewName".to_string() };
    let data = action.run(&ctx, &mut mock).expect("rename should succeed");
    let result = to_sj(&data);
    assert!(result["updated"].get("mb1").is_some());
    assert_eq!(action.resolved_id(&data).as_deref(), Some("mb1"));
}

#[test]
fn manage_mailbox_create_with_parent_id() {
    let mut mock = Exchange::new(MockJmap::start());
    mock.transport.handle_method(
        "Mailbox/set",
        json_of(r#"{"methodResponses": [["Mailbox/set", {"created": {"new-mailbox": {"id": "mbox-child"}}}, "call-0"]]}"#),
    );
    let ctx = mock_ctx(&mut mock);
    let action = ManageMailbox::Create { name: "Child".to_string(), parent_id: "mbox-parent".to_string() };
    let data = action.run(&ctx, &mut mock).expect("create with parent should succeed");
    let result = to_sj(&data);
    assert_eq!(result["created"]["new-mailbox"]["id"], "mbox-child");
    assert_eq!(action.resolved_id(&data).as_deref(), Some("mbox-child"));
    assert_eq!(mock.transport.requests[0]["methodCalls"][0][1]["create"]["new-mailbox"]["parentId"], "mbox-parent");
}

// ---- projection ----

#[test]
fn project_fields_picks_specified_keys() {
    let obj = to_jv(&json_of(r#"{"a": 1, "b": 2, "c": 3}"#));
    let result = project_fields(&obj, &["a", "c"]);
    assert_eq!(to_sj(&result), json_of(r#"{"a": 1, "c": 3}"#));
}

#[test]
fn project_fields_ignores_missing_keys() {
    let obj = to_jv(&json_of(r#"{"a": 1}"#));
    let result = project_fields(&obj, &["a", "b"]);
    assert_eq!(to_sj(&result), json_of(r#"{"a": 1}"#));
}

#[test]
fn project_fields_returns_empty_for_non_object() {
    let val = to_jv(&json_of(r#""hello""#));
    let result = project_fields(&val, &["a"]);
    assert_eq!(to_sj(&result), json_of("{}"));
}

#[test]
fn project_fields_array_projects_each_element() {
    let arr = to_jv(&json_of(r#"[{"x": 1, "y": 2, "z": 3}, {"x": 10, "y": 20, "z": 30}]"#));
    let result = to_sj(&project_fields_array(&arr, &["x", "z"]));
    let items = result.as_array().expect("array");
    assert_eq!(items.len(), 2);
    assert_eq!(items[0], json_of(r#"{"x": 1, "z": 3}"#));
    assert_eq!(items[1], json_of(r#"{"x": 10, "z": 30}"#));
}

#[test]
fn project_fields_array_returns_clone_for_non_array() {
    let val = to_jv(&json_of(r#""hello""#));
    let result = project_fields_array(&val, &["a"]);
    assert_eq!(to_sj(&result), json_of(r#""hello""#));
}

#[test]
fn project_fields_with_empty_fields_slice() {
    let obj = to_jv(&json_of(r#"{"a": 1, "b": 2}"#));
    let result = project_fields(&obj, &[]);
    assert_eq!(to_sj(&result), json_of("{}"));
}

#[test]
fn project_fields_array_with_empty_array() {
    let arr = to_jv(&json_of("[]"));
    let result = project_fields_array(&arr, &["a"]);
    assert_eq!(to_sj(&result), json_of("[]"));
}

#[test]
fn project_fields_array_with_non_object_elements() {
    let arr = to_jv(&json_of(r#"[1, "hello", null]"#));
    let result = to_sj(&project_fields_array(&arr, &["a"]));
    let items = result.as_array().expect("should be array");
    assert_eq!(items.len(), 3);
    for item in items {
        assert_eq!(item, &json_of("{}"), "non-object elements should project to empty object");
    }
}
// ---- test support: JSON conversion and an in-memory JMAP server ----

const TEST_ACCOUNT_ID: &str = "u1234567";
const BASE_URL: &str = "http://mock.test";

fn to_jv(v: &Value) -> JsonValue {
    match v {
        Value::Null => JsonValue::Null,
        Value::Bool(b) => JsonValue::Bool(*b),
        Value::Number(n) => {
            if let Some(u) = n.as_u64() {
                JsonValue::UInt(u)
            } else if let Some(i) = n.as_i64() {
                JsonValue::Int(i)
            } else {
                JsonValue::Decimal(n.to_string())
            }
        }
        Value::String(s) => JsonValue::Str(s.clone()),
        Value::Array(a) => JsonValue::Array(a.iter().map(to_jv).collect()),
        Value::Object(o) => {
            let mut obj = JsonObject::new();
            for (k, x) in o {
                obj.insert(k.clone(), to_jv(x));
            }
            JsonValue::Object(obj)
        }
    }
}

fn to_sj(v: &JsonValue) -> Value {
    match v {
        JsonValue::Null => Value::Null,
        JsonValue::Bool(b) => Value::Bool(*b),
        JsonValue::UInt(u) => Value::from(*u),
        JsonValue::Int(i) => Value::from(*i),
        JsonValue::Decimal(s) => serde_json::from_str(s).expect("decimal"),
        JsonValue::Str(s) => Value::String(s.clone()),
        JsonValue::Array(a) => Value::Array(a.iter().map(to_sj).collect()),
        JsonValue::Object(o) => {
            let mut m = serde_json::Map::new();
            for (k, x) in o.members() {
                m.insert(k.clone(), to_sj(x));
            }
            Value::Object(m)
        }
    }
}

/// A JMAP server in memory: a session document at `/jmap/session`, and method handlers
/// on `/jmap/api/` chosen by text the request body holds (the latest registered match
/// wins), and blob downloads under `/jmap/download/`.
struct MockJmap {
    handlers: Vec<(Vec<String>, Value)>,
    requests: Vec<Value>,
    session_status: Option<u16>,
    download: Option<Vec<u8>>,
}

impl MockJmap {
    fn start() -> Self {
        MockJmap { handlers: Vec::new(), requests: Vec::new(), session_status: None, download: None }
    }

    fn handle_method(&mut self, method_name: &str, response_body: Value) {
        self.handlers.push((vec![method_name.to_string()], response_body));
    }

    #[allow(dead_code)]
    fn handle_method_matching(&mut self, method_name: &str, body_substr: &str, response_body: Value) {
        self.handlers.push((vec![method_name.to_string(), body_substr.to_string()], response_body));
    }

    fn session_url(&self) -> String {
        format!("{}/jmap/session", BASE_URL)
    }

    fn default_session() -> Value {
        json_of(&format!(
            r#"{{
            "username": "test@fastmail.com",
            "primaryAccounts": {{
                "urn:ietf:params:jmap:core": "{id}",
                "urn:ietf:params:jmap:mail": "{id}",
                "urn:ietf:params:jmap:submission": "{id}",
                "urn:ietf:params:jmap:vacationresponse": "{id}",
                "https://www.fastmail.com/dev/maskedemail": "{id}"
            }},
            "accounts": {{
                "{id}": {{ "name": "test@fastmail.com", "isPersonal": true, "isReadOnly": false }}
            }},
            "apiUrl": "{base}/jmap/api/",
            "downloadUrl": "{base}/jmap/download/",
            "uploadUrl": "{base}/jmap/upload/",
            "capabilities": {{
                "urn:ietf:params:jmap:core": {{
                    "maxSizeUpload": 50000000, "maxCallsInRequest": 64,
                    "maxObjectsInGet": 1000, "maxObjectsInSet": 1000
                }}
            }}
        }}"#,
            id = TEST_ACCOUNT_ID,
            base = BASE_URL
        ))
    }
}

impl HttpTransport for MockJmap {
    fn get_json(&mut self, url: &str, _authorization: &str) -> Result<JsonValue, Error> {
        if url == self.session_url() {
            if let Some(status) = self.session_status {
                return Err(Error::Http(format!("http status: {status}")));
            }
            Ok(to_jv(&MockJmap::default_session()))
        } else {
            Err(Error::Http(format!("{url}: status code 404")))
        }
    }

    fn post_json(&mut self, url: &str, _authorization: &str, body: &JsonValue) -> Result<JsonValue, Error> {
        if url != format!("{}/jmap/api/", BASE_URL) {
            return Err(Error::Http(format!("{url}: status code 404")));
        }
        let sent = to_sj(body);
        let text = serde_json::to_string(&sent).expect("serialise");
        self.requests.push(sent);
        for (needles, reply) in self.handlers.iter().rev() {
            if needles.iter().all(|n| text.contains(n.as_str())) {
                return Ok(to_jv(reply));
            }
        }
        Err(Error::Http(format!("{url}: status code 404")))
    }

    fn get_bytes(&mut self, url: &str, _authorization: &str, limit: u64) -> Result<Vec<u8>, Error> {
        match &self.download {
            Some(bytes) if url.starts_with(&format!("{}/jmap/download/", BASE_URL)) => {
                if bytes.len() as u64 > limit {
                    Err(Error::Http("body exceeds limit".to_string()))
                } else {
                    Ok(bytes.clone())
                }
            }
            _ => Err(Error::Http(format!("{url}: status code 404"))),
        }
    }
}

fn json_of(s: &str) -> Value {
    serde_json::from_str(s).expect("test JSON")
}

#[allow(dead_code)]
fn mock_ctx(mock: &mut Exchange<MockJmap>) -> Context {
    let url = mock.transport.session_url();
    let (client, _) = JmapClient::connect_to(mock, &url, "fake-token").expect("session connect");
    Context { jmap: client, account_id: TEST_ACCOUNT_ID.to_string(), recorder: None }
}

#[allow(dead_code)]
fn validation_ctx() -> Context {
    let client = JmapClient::new("http://localhost:0".to_string(), "fake".to_string());
    Context { jmap: client, account_id: "test".to_string(), recorder: None }
}
