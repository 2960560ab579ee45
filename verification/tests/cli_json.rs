use fastermail::actions::{Action, Context};
use fastermail::error::Error;
use fastermail::jmap::client::{Exchange, HttpTransport, JmapClient};
use fastermail::json::{JsonObject, JsonValue};
use serde_json::Value;

use fastermail::actions::identity::ListIdentities;
use fastermail::actions::mailbox::{ListMailboxes, ManageMailbox};
use fastermail::actions::masked_email::{CreateMaskedEmail, ListMaskedEmails, UpdateMaskedEmail};
use fastermail::actions::vacation::{GetVacationResponse, SetVacationResponse};
use fastermail::cli::views::vacation_choice;
use fastermail::present::{
    project_identity_list, project_mailbox_list, project_masked_email_create, project_masked_email_list,
    project_vacation, set_ok, set_with_id, FieldChange, MaskedEmailState,
};

// The command line in JSON mode prints a presented value as pretty JSON and a newline.
fn emitted(v: &JsonValue) -> String {
    format!("{}\n", serde_json::to_string_pretty(&to_sj(v)).expect("pretty"))
}

fn expected_line(s: &str) -> String {
    format!("{}\n", serde_json::to_string_pretty(&json_of(s)).expect("pretty"))
}

fn mailbox_list_response() -> Value {
    json_of(
        r#"{"methodResponses": [["Mailbox/get", {
        "list": [
            {"id": "mb1", "name": "Inbox", "role": "inbox", "totalEmails": 42, "unreadEmails": 3, "parentId": null,
             "sortOrder": 1, "totalThreads": 40, "unreadThreads": 2, "myRights": {"mayRead": true}, "isSubscribed": true},
            {"id": "mb2", "name": "Sent", "role": "sent", "totalEmails": 10, "unreadEmails": 0, "parentId": null,
             "sortOrder": 2, "totalThreads": 9, "unreadThreads": 0, "myRights": {"mayRead": true}, "isSubscribed": true}
        ]
    }, "call-0"]]}"#,
    )
}

#[test]
fn mailboxes_golden_list_json_projects_fields() {
    let mut mock = Exchange::new(MockJmap::start());
    let ctx = mock_ctx(&mut mock);
    mock.transport.handle_method("Mailbox/get", mailbox_list_response());
    let action = ListMailboxes { role: String::new() };
    let value = project_mailbox_list(&action.run(&ctx, &mut mock).expect("list should succeed"), &action.role);
    assert_eq!(
        emitted(&value),
        expected_line(
            r#"[
        {"id": "mb1", "name": "Inbox", "role": "inbox", "totalEmails": 42, "unreadEmails": 3, "parentId": null},
        {"id": "mb2", "name": "Sent", "role": "sent", "totalEmails": 10, "unreadEmails": 0, "parentId": null}
    ]"#
        ),
        "CLI --json mailbox list output bytes drifted"
    );
}

#[test]
fn golden_list_json_filters_by_role() {
    let mut mock = Exchange::new(MockJmap::start());
    let ctx = mock_ctx(&mut mock);
    mock.transport.handle_method("Mailbox/get", mailbox_list_response());
    let action = ListMailboxes { role: "inbox".to_string() };
    let value = project_mailbox_list(&action.run(&ctx, &mut mock).expect("list should succeed"), &action.role);
    assert_eq!(
        emitted(&value),
        expected_line(r#"[{"id": "mb1", "name": "Inbox", "role": "inbox", "totalEmails": 42, "unreadEmails": 3, "parentId": null}]"#),
        "CLI --json role-filtered mailbox list output bytes drifted"
    );
}

#[test]
fn golden_create_json_returns_id() {
    let mut mock = Exchange::new(MockJmap::start());
    let ctx = mock_ctx(&mut mock);
    mock.transport.handle_method(
        "Mailbox/set",
        json_of(r#"{"methodResponses": [["Mailbox/set", {"created": {"new-mailbox": {"id": "mbox-new"}}}, "call-0"]]}"#),
    );
    let action = ManageMailbox::Create { name: "Projects".to_string(), parent_id: String::new() };
    let data = action.run(&ctx, &mut mock).expect("create should succeed");
    let value = set_with_id(action.resolved_id(&data));
    assert_eq!(
        emitted(&value),
        expected_line(r#"{"success": true, "mailboxId": "mbox-new"}"#),
        "CLI --json mailbox create output bytes drifted"
    );
}

#[test]
fn golden_rename_json_returns_success() {
    let mut mock = Exchange::new(MockJmap::start());
    let ctx = mock_ctx(&mut mock);
    mock.transport.handle_method("Mailbox/set", json_of(r#"{"methodResponses": [["Mailbox/set", {"updated": {"mb1": null}}, "call-0"]]}"#));
    let action = ManageMailbox::Rename { mailbox_id: "mb1".to_string(), name: "NewName".to_string() };
    action.run(&ctx, &mut mock).expect("rename should succeed");
    assert_eq!(emitted(&set_ok()), expected_line(r#"{"success": true}"#), "CLI --json mailbox rename output bytes drifted");
}

#[test]
fn golden_delete_json_returns_success() {
    let mut mock = Exchange::new(MockJmap::start());
    let ctx = mock_ctx(&mut mock);
    mock.transport.handle_method("Mailbox/set", json_of(r#"{"methodResponses": [["Mailbox/set", {"destroyed": ["mb-del"]}, "call-0"]]}"#));
    let action = ManageMailbox::Delete { mailbox_id: "mb-del".to_string() };
    action.run(&ctx, &mut mock).expect("delete should succeed");
    assert_eq!(emitted(&set_ok()), expected_line(r#"{"success": true}"#), "CLI --json mailbox delete output bytes drifted");
}

#[test]
fn identities_golden_list_json_projects_fields() {
    let mut mock = Exchange::new(MockJmap::start());
    let ctx = mock_ctx(&mut mock);
    mock.transport.handle_method(
        "Identity/get",
        json_of(
            r#"{"methodResponses": [["Identity/get", {
            "list": [
                {"id": "id1", "name": "Alice", "email": "alice@example.com", "replyTo": null, "bcc": null,
                 "textSignature": "sig1", "htmlSignature": "<p>sig1</p>", "mayDelete": true},
                {"id": "id2", "name": "Bob", "email": "bob@example.com", "replyTo": [{"email": "bob-reply@example.com"}],
                 "bcc": null, "textSignature": "sig2", "htmlSignature": "<p>sig2</p>", "mayDelete": false}
            ]
        }, "call-0"]]}"#,
        ),
    );
    let value = project_identity_list(&ListIdentities.run(&ctx, &mut mock).expect("list should succeed"));
    assert_eq!(
        emitted(&value),
        expected_line(
            r#"[
        {"id": "id1", "name": "Alice", "email": "alice@example.com", "replyTo": null},
        {"id": "id2", "name": "Bob", "email": "bob@example.com", "replyTo": [{"email": "bob-reply@example.com"}]}
    ]"#
        ),
        "CLI --json identity list output bytes drifted"
    );
}

#[test]
fn masked_emails_golden_list_json_projects_fields() {
    let mut mock = Exchange::new(MockJmap::start());
    let ctx = mock_ctx(&mut mock);
    mock.transport.handle_method(
        "MaskedEmail/get",
        json_of(
            r#"{"methodResponses": [["MaskedEmail/get", {
            "list": [
                {"id": "me1", "email": "abc@fastmail.com", "forDomain": "example.com", "description": "Test",
                 "state": "enabled", "createdAt": "2026-01-01", "lastMessageAt": "2026-03-01", "url": "https://example.com"},
                {"id": "me2", "email": "def@fastmail.com", "forDomain": "other.com", "description": "Second",
                 "state": "disabled", "createdAt": "2026-02-01", "lastMessageAt": null}
            ]
        }, "call-0"]]}"#,
        ),
    );
    let action = ListMaskedEmails { state: None };
    let value = project_masked_email_list(&action.run(&ctx, &mut mock).expect("list should succeed"), None);
    assert_eq!(
        emitted(&value),
        expected_line(
            r#"[
        {"id": "me1", "email": "abc@fastmail.com", "forDomain": "example.com", "description": "Test", "state": "enabled", "createdAt": "2026-01-01"},
        {"id": "me2", "email": "def@fastmail.com", "forDomain": "other.com", "description": "Second", "state": "disabled", "createdAt": "2026-02-01"}
    ]"#
        ),
        "CLI --json masked email list output bytes drifted"
    );
}

#[test]
fn golden_create_json_projects_id_and_email_only() {
    let mut mock = Exchange::new(MockJmap::start());
    let ctx = mock_ctx(&mut mock);
    mock.transport.handle_method(
        "MaskedEmail/set",
        json_of(
            r#"{"methodResponses": [["MaskedEmail/set", {
            "created": {"new-masked": {"id": "me-new", "email": "new@fastmail.com", "state": "enabled",
                "forDomain": "mysite.com", "description": "My site login", "createdAt": "2026-06-25"}}
        }, "call-0"]]}"#,
        ),
    );
    let action = CreateMaskedEmail {
        for_domain: "mysite.com".to_string(),
        description: "My site login".to_string(),
        email_prefix: String::new(),
    };
    let value = project_masked_email_create(&action.run(&ctx, &mut mock).expect("create should succeed"));
    assert_eq!(
        emitted(&value),
        expected_line(r#"{"id": "me-new", "email": "new@fastmail.com"}"#),
        "CLI --json masked email create output bytes drifted"
    );
}

#[test]
fn golden_update_json_returns_success() {
    let mut mock = Exchange::new(MockJmap::start());
    let ctx = mock_ctx(&mut mock);
    mock.transport.handle_method("MaskedEmail/set", json_of(r#"{"methodResponses": [["MaskedEmail/set", {"updated": {"me1": null}}, "call-0"]]}"#));
    let state = MaskedEmailState::parse_settable("disabled").expect("settable");
    UpdateMaskedEmail { id: "me1".to_string(), state }.run(&ctx, &mut mock).expect("update should succeed");
    assert_eq!(emitted(&set_ok()), expected_line(r#"{"success": true}"#), "CLI --json masked email update output bytes drifted");
}

#[test]
fn golden_get_json_projects_fields() {
    let mut mock = Exchange::new(MockJmap::start());
    let ctx = mock_ctx(&mut mock);
    mock.transport.handle_method(
        "VacationResponse/get",
        json_of(
            r#"{"methodResponses": [["VacationResponse/get", {
            "list": [{"id": "singleton", "isEnabled": true, "fromDate": "2026-01-01T00:00:00Z",
                "toDate": "2026-01-15T00:00:00Z", "subject": "OOO", "textBody": "Away", "htmlBody": "<p>Away</p>"}]
        }, "call-0"]]}"#,
        ),
    );
    let value = project_vacation(&GetVacationResponse.run(&ctx, &mut mock).expect("get should succeed"));
    assert_eq!(
        emitted(&value),
        expected_line(
            r#"{"isEnabled": true, "fromDate": "2026-01-01T00:00:00Z", "toDate": "2026-01-15T00:00:00Z",
            "subject": "OOO", "textBody": "Away", "htmlBody": "<p>Away</p>"}"#
        ),
        "CLI --json vacation get output bytes drifted"
    );
}

#[test]
fn golden_set_json_returns_success() {
    let mut mock = Exchange::new(MockJmap::start());
    let ctx = mock_ctx(&mut mock);
    mock.transport.handle_method(
        "VacationResponse/set",
        json_of(r#"{"methodResponses": [["VacationResponse/set", {"updated": {"singleton": null}}, "call-0"]]}"#),
    );
    let is_enabled = vacation_choice(true, false).expect("a choice");
    let action = SetVacationResponse {
        is_enabled: Some(is_enabled),
        from_date: FieldChange::from_opt(None),
        to_date: FieldChange::from_opt(None),
        subject: FieldChange::from_opt(Some("On vacation".to_string())),
        text_body: FieldChange::from_opt(None),
        html_body: FieldChange::from_opt(None),
    };
    action.run(&ctx, &mut mock).expect("set should succeed");
    assert_eq!(emitted(&set_ok()), expected_line(r#"{"success": true}"#), "CLI --json vacation set output bytes drifted");
    let patch = &mock.transport.requests[0]["methodCalls"][0][1]["update"]["singleton"];
    assert_eq!(patch["subject"], "On vacation");
    assert_eq!(patch["isEnabled"], true);
}
// ---- test support: JSON conversion and an in-memory JMAP server ----

const TEST_ACCOUNT_ID: &str = "u1234567";
const BASE_URL: &str = "http://mock.test";

fn to_jv(v: &Value) -> JsonValue {
    match v {
        Value::Null => JsonValue::Null,
        Value::Bool(b) => JsonValue::Bool(*b),
        Value::Number(n) => {
            if let Some(u) = n.as_u64() {
                JsonValue::UInt(u)
            } else if let Some(i) = n.as_i64() {
                JsonValue::Int(i)
            } else {
                JsonValue::Decimal(n.to_string())
            }
        }
        Value::String(s) => JsonValue::Str(s.clone()),
        Value::Array(a) => JsonValue::Array(a.iter().map(to_jv).collect()),
        Value::Object(o) => {
            let mut obj = JsonObject::new();
            for (k, x) in o {
                obj.insert(k.clone(), to_jv(x));
            }
            JsonValue::Object(obj)
        }
    }
}

fn to_sj(v: &JsonValue) -> Value {
    match v {
        JsonValue::Null => Value::Null,
        JsonValue::Bool(b) => Value::Bool(*b),
        JsonValue::UInt(u) => Value::from(*u),
        JsonValue::Int(i) => Value::from(*i),
        JsonValue::Decimal(s) => serde_json::from_str(s).expect("decimal"),
        JsonValue::Str(s) => Value::String(s.clone()),
        JsonValue::Array(a) => Value::Array(a.iter().map(to_sj).collect()),
        JsonValue::Object(o) => {
            let mut m = serde_json::Map::new();
            for (k, x) in o.members() {
                m.insert(k.clone(), to_sj(x));
            }
            Value::Object(m)
        }
    }
}

/// A JMAP server in memory: a session document at `/jmap/session`, and method handlers
/// on `/jmap/api/` chosen by text the request body holds (the latest registered match
/// wins), and blob downloads under `/jmap/download/`.
struct MockJmap {
    handlers: Vec<(Vec<String>, Value)>,
    requests: Vec<Value>,
    session_status: Option<u16>,
    download: Option<Vec<u8>>,
}

impl MockJmap {
    fn start() -> Self {
        MockJmap { handlers: Vec::new(), requests: Vec::new(), session_status: None, download: None }
    }

    fn handle_method(&mut self, method_name: &str, response_body: Value) {
        self.handlers.push((vec![method_name.to_string()], response_body));
    }

    #[allow(dead_code)]
    fn handle_method_matching(&mut self, method_name: &str, body_substr: &str, response_body: Value) {
        self.handlers.push((vec![method_name.to_string(), body_substr.to_string()], response_body));
    }

    fn session_url(&self) -> String {
        format!("{}/jmap/session", BASE_URL)
    }

    fn default_session() -> Value {
        json_of(&format!(
            r#"{{
            "username": "test@fastmail.com",
            "primaryAccounts": {{
                "urn:ietf:params:jmap:core": "{id}",
                "urn:ietf:params:jmap:mail": "{id}",
                "urn:ietf:params:jmap:submission": "{id}",
                "urn:ietf:params:jmap:vacationresponse": "{id}",
                "https://www.fastmail.com/dev/maskedemail": "{id}"
            }},
            "accounts": {{
                "{id}": {{ "name": "test@fastmail.com", "isPersonal": true, "isReadOnly": false }}
            }},
            "apiUrl": "{base}/jmap/api/",
            "downloadUrl": "{base}/jmap/download/",
            "uploadUrl": "{base}/jmap/upload/",
            "capabilities": {{
                "urn:ietf:params:jmap:core": {{
                    "maxSizeUpload": 50000000, "maxCallsInRequest": 64,
                    "maxObjectsInGet": 1000, "maxObjectsInSet": 1000
                }}
            }}
        }}"#,
            id = TEST_ACCOUNT_ID,
            base = BASE_URL
        ))
    }
}

impl HttpTransport for MockJmap {
    fn get_json(&mut self, url: &str, _authorization: &str) -> Result<JsonValue, Error> {
        if url == self.session_url() {
            if let Some(status) = self.session_status {
                return Err(Error::Http(format!("http status: {status}")));
            }
            Ok(to_jv(&MockJmap::default_session()))
        } else {
            Err(Error::Http(format!("{url}: status code 404")))
        }
    }

    fn post_json(&mut self, url: &str, _authorization: &str, body: &JsonValue) -> Result<JsonValue, Error> {
        if url != format!("{}/jmap/api/", BASE_URL) {
            return Err(Error::Http(format!("{url}: status code 404")));
        }
        let sent = to_sj(body);
        let text = serde_json::to_string(&sent).expect("serialise");
        self.requests.push(sent);
        for (needles, reply) in self.handlers.iter().rev() {
            if needles.iter().all(|n| text.contains(n.as_str())) {
                return Ok(to_jv(reply));
            }
        }
        Err(Error::Http(format!("{url}: status code 404")))
    }

    fn get_bytes(&mut self, url: &str, _authorization: &str, limit: u64) -> Result<Vec<u8>, Error> {
        match &self.download {
            Some(bytes) if url.starts_with(&format!("{}/jmap/download/", BASE_URL)) => {
                if bytes.len() as u64 > limit {
                    Err(Error::Http("body exceeds limit".to_string()))
                } else {
                    Ok(bytes.clone())
                }
            }
            _ => Err(Error::Http(format!("{url}: status code 404"))),
        }
    }
}

fn json_of(s: &str) -> Value {
    serde_json::from_str(s).expect("test JSON")
}

#[allow(dead_code)]
fn mock_ctx(mock: &mut Exchange<MockJmap>) -> Context {
    let url = mock.transport.session_url();
    let (client, _) = JmapClient::connect_to(mock, &url, "fake-token").expect("session connect");
    Context { jmap: client, account_id: TEST_ACCOUNT_ID.to_string(), recorder: None }
}

#[allow(dead_code)]
fn validation_ctx() -> Context {
    let client = JmapClient::new("http://localhost:0".to_string(), "fake".to_string());
    Context { jmap: client, account_id: "test".to_string(), recorder: None }
}
