use fastermail::actions::{Action, Context};
use fastermail::error::Error;
use fastermail::jmap::client::{Exchange, HttpTransport, JmapClient};
use fastermail::json::{JsonObject, JsonValue};
use serde_json::Value;

use fastermail::actions::email::{
    DeleteEmail, FlagEmail, GetEmailBody, GetEmails, MoveEmail, SearchEmails, SendEmail,
};

fn email_query_get_response() -> Value {
    json_of(
        r#"{
        "methodResponses": [
            ["Email/query", {"ids": ["e001"]}, "call-0"],
            ["Email/get", {"list": [{"id": "e001", "subject": "Hello"}]}, "call-1"]
        ]
    }"#,
    )
}

#[test]
fn get_emails_requires_mailbox_id_or_name() {
    let ctx = validation_ctx();
    let mut t = Exchange::new(MockJmap::start());
    let action = GetEmails {
        mailbox_id: "".to_string(),
        mailbox_name: "".to_string(),
        limit: 10,
        include_body: false,
    };
    let err = action.run(&ctx, &mut t).expect_err("should fail without mailbox");
    let msg = err.message();
    assert!(msg.contains("mailboxId") || msg.contains("mailboxName"), "error should mention mailboxId: {msg}");
}

#[test]
fn get_emails_uses_mailbox_id_directly() {
    let mut mock = Exchange::new(MockJmap::start());
    let ctx = mock_ctx(&mut mock);
    mock.transport.handle_method("Email/query", email_query_get_response());

    let action = GetEmails {
        mailbox_id: "mbox-1".to_string(),
        mailbox_name: "".to_string(),
        limit: 10,
        include_body: false,
    };
    let result = to_sj(&action.run(&ctx, &mut mock).expect("get_emails should succeed"));
    let emails = result.as_array().expect("result should be array");
    assert!(!emails.is_empty(), "should return at least one email");
}

#[test]
fn get_emails_defaults_limit_to_20() {
    let mut mock = Exchange::new(MockJmap::start());
    let ctx = mock_ctx(&mut mock);
    mock.transport.handle_method("Email/query", email_query_get_response());

    let action = GetEmails {
        mailbox_id: "mbox-1".to_string(),
        mailbox_name: "".to_string(),
        limit: 0,
        include_body: false,
    };
    let result = to_sj(&action.run(&ctx, &mut mock).expect("get_emails with limit=0 should succeed"));
    assert!(result.is_array(), "result should be array");
    let sent = &mock.transport.requests[0];
    assert_eq!(sent["methodCalls"][0][1]["limit"], 20);
}

#[test]
fn search_emails_requires_at_least_one_filter() {
    let ctx = validation_ctx();
    let mut t = Exchange::new(MockJmap::start());
    let action = SearchEmails {
        keyword: "".to_string(),
        from: "".to_string(),
        to: "".to_string(),
        subject: "".to_string(),
        mailbox_id: "".to_string(),
        has_attachment: None,
        after: "".to_string(),
        before: "".to_string(),
        limit: 10,
        include_body: false,
    };
    let err = action.run(&ctx, &mut t).expect_err("should fail with no filters");
    let msg = err.message();
    assert!(msg.contains("filter"), "error should mention filter: {msg}");
}

#[test]
fn search_emails_builds_keyword_filter() {
    let mut mock = Exchange::new(MockJmap::start());
    let ctx = mock_ctx(&mut mock);
    mock.transport.handle_method("Email/query", email_query_get_response());

    let action = SearchEmails {
        keyword: "invoice".to_string(),
        from: "".to_string(),
        to: "".to_string(),
        subject: "".to_string(),
        mailbox_id: "".to_string(),
        has_attachment: None,
        after: "".to_string(),
        before: "".to_string(),
        limit: 10,
        include_body: false,
    };
    let result = to_sj(&action.run(&ctx, &mut mock).expect("search with keyword should succeed"));
    assert!(result.is_array(), "result should be array");
    let sent = &mock.transport.requests[0];
    assert_eq!(sent["methodCalls"][0][1]["filter"]["text"], "invoice");
}

#[test]
fn get_email_body_requires_email_id() {
    let ctx = validation_ctx();
    let mut t = Exchange::new(MockJmap::start());
    let action = GetEmailBody { email_id: "".to_string(), format: "text".to_string() };
    let err = action.run(&ctx, &mut t).expect_err("should fail without emailId");
    let msg = err.message();
    assert!(msg.contains("emailId"), "error should mention emailId: {msg}");
}

#[test]
fn get_email_body_rejects_invalid_format() {
    let ctx = validation_ctx();
    let mut t = Exchange::new(MockJmap::start());
    let action = GetEmailBody { email_id: "e001".to_string(), format: "xml".to_string() };
    let err = action.run(&ctx, &mut t).expect_err("should fail with invalid format");
    let msg = err.message();
    assert!(msg.contains("format"), "error should mention format: {msg}");
}

#[test]
fn get_email_body_extracts_body_content() {
    let mut mock = Exchange::new(MockJmap::start());
    let ctx = mock_ctx(&mut mock);
    mock.transport.handle_method(
        "Email/get",
        json_of(
            r#"{
        "methodResponses": [
            ["Email/get", {
                "list": [{
                    "id": "e001",
                    "subject": "Test",
                    "from": [{"email": "a@b.com"}],
                    "to": [{"email": "c@d.com"}],
                    "receivedAt": "2026-01-01T00:00:00Z",
                    "textBody": [{"partId": "p1"}],
                    "htmlBody": [{"partId": "p2"}],
                    "bodyValues": {
                        "p1": {"value": "plain text body"},
                        "p2": {"value": "<p>html body</p>"}
                    }
                }]
            }, "call-0"]
        ]
    }"#,
        ),
    );

    let action = GetEmailBody { email_id: "e001".to_string(), format: "text".to_string() };
    let result = to_sj(&action.run(&ctx, &mut mock).expect("get_email_body should succeed"));
    assert_eq!(result["textBody"], "plain text body");
    assert_eq!(result["htmlBody"], "<p>html body</p>");
    assert_eq!(result["date"], "2026-01-01T00:00:00Z");
    assert!(result.get("bodyValues").is_none(), "bodyValues should be removed");
}

#[test]
fn send_email_requires_to() {
    let ctx = validation_ctx();
    let mut t = Exchange::new(MockJmap::start());
    let action = SendEmail {
        to: vec![],
        subject: "Hi".to_string(),
        body: "Hello".to_string(),
        cc: vec![],
        bcc: vec![],
        is_html: false,
        in_reply_to: "".to_string(),
    };
    let err = action.run(&ctx, &mut t).expect_err("should fail without to");
    let msg = err.message();
    assert!(msg.contains("to"), "error should mention to: {msg}");
}

#[test]
fn send_email_requires_subject() {
    let ctx = validation_ctx();
    let mut t = Exchange::new(MockJmap::start());
    let action = SendEmail {
        to: vec!["a@b.com".to_string()],
        subject: "".to_string(),
        body: "Hello".to_string(),
        cc: vec![],
        bcc: vec![],
        is_html: false,
        in_reply_to: "".to_string(),
    };
    let err = action.run(&ctx, &mut t).expect_err("should fail without subject");
    let msg = err.message();
    assert!(msg.contains("subject"), "error should mention subject: {msg}");
}

#[test]
fn move_email_requires_email_ids() {
    let ctx = validation_ctx();
    let mut t = Exchange::new(MockJmap::start());
    let action = MoveEmail { email_ids: vec![], mailbox_id: "mbox-1".to_string() };
    let err = action.run(&ctx, &mut t).expect_err("should fail without emailIds");
    let msg = err.message();
    assert!(msg.contains("emailIds"), "error should mention emailIds: {msg}");
}

#[test]
fn move_email_requires_mailbox_id() {
    let ctx = validation_ctx();
    let mut t = Exchange::new(MockJmap::start());
    let action = MoveEmail { email_ids: vec!["e001".to_string()], mailbox_id: "".to_string() };
    let err = action.run(&ctx, &mut t).expect_err("should fail without mailboxId");
    let msg = err.message();
    assert!(msg.contains("mailboxId"), "error should mention mailboxId: {msg}");
}

#[test]
fn delete_email_requires_email_ids() {
    let ctx = validation_ctx();
    let mut t = Exchange::new(MockJmap::start());
    let action = DeleteEmail { email_ids: vec![], permanent: false };
    let err = action.run(&ctx, &mut t).expect_err("should fail without emailIds");
    let msg = err.message();
    assert!(msg.contains("emailIds"), "error should mention emailIds: {msg}");
}

#[test]
fn flag_email_requires_email_ids() {
    let ctx = validation_ctx();
    let mut t = Exchange::new(MockJmap::start());
    let action = FlagEmail { email_ids: vec![], flag: "seen".to_string(), value: true };
    let err = action.run(&ctx, &mut t).expect_err("should fail without emailIds");
    let msg = err.message();
    assert!(msg.contains("emailIds"), "error should mention emailIds: {msg}");
}

#[test]
fn flag_email_rejects_invalid_flag() {
    let ctx = validation_ctx();
    let mut t = Exchange::new(MockJmap::start());
    let action = FlagEmail { email_ids: vec!["e001".to_string()], flag: "invalid".to_string(), value: true };
    let err = action.run(&ctx, &mut t).expect_err("should fail with invalid flag");
    let msg = err.message();
    assert!(msg.contains("invalid"), "error should mention invalid flag: {msg}");
}

#[test]
fn flag_email_maps_seen_to_keyword() {
    let mut mock = Exchange::new(MockJmap::start());
    let ctx = mock_ctx(&mut mock);
    mock.transport.handle_method(
        "Email/set",
        json_of(r#"{"methodResponses": [["Email/set", {"updated": {"e001": null}}, "call-0"]]}"#),
    );

    let action = FlagEmail { email_ids: vec!["e001".to_string()], flag: "seen".to_string(), value: true };
    let result = to_sj(&action.run(&ctx, &mut mock).expect("flag_email should succeed"));
    assert_eq!(result["updated"], 1, "should report one updated email");
    let sent = &mock.transport.requests[0];
    assert_eq!(sent["methodCalls"][0][1]["update"]["e001"]["keywords/$seen"], true);
}

#[test]
fn send_email_requires_body() {
    let ctx = validation_ctx();
    let mut t = Exchange::new(MockJmap::start());
    let action = SendEmail {
        to: vec!["a@b.com".into()],
        subject: "Hi".into(),
        body: "".into(),
        cc: vec![],
        bcc: vec![],
        is_html: false,
        in_reply_to: "".into(),
    };
    let err = action.run(&ctx, &mut t).expect_err("should fail with empty body");
    let msg = err.message();
    assert!(msg.contains("body"), "error should mention body: {msg}");
}

#[test]
fn send_email_succeeds() {
    let mut mock = Exchange::new(MockJmap::start());
    let ctx = mock_ctx(&mut mock);

    mock.transport.handle_method(
        "Identity/get",
        json_of(
            r#"{"methodResponses": [["Identity/get", {
            "list": [{"id": "ident-1", "email": "me@test.com", "name": "Test"}]
        }, "call-0"]]}"#,
        ),
    );
    mock.transport.handle_method(
        "Email/set",
        json_of(
            r#"{"methodResponses": [
            ["Email/set", {"created": {"draft": {"id": "e-new"}}}, "call-0"],
            ["EmailSubmission/set", {"created": {"submission": {"id": "sub-1"}}}, "call-1"]
        ]}"#,
        ),
    );

    let action = SendEmail {
        to: vec!["recipient@test.com".into()],
        subject: "Test Subject".into(),
        body: "Hello there".into(),
        cc: vec![],
        bcc: vec![],
        is_html: false,
        in_reply_to: "".into(),
    };
    let result = to_sj(&action.run(&ctx, &mut mock).expect("send_email should succeed"));
    assert_eq!(result["success"], true, "should report success");
    assert_eq!(result["emailId"], "e-new", "should return created email id");
}

#[test]
fn move_email_succeeds() {
    let mut mock = Exchange::new(MockJmap::start());
    let ctx = mock_ctx(&mut mock);
    mock.transport.handle_method(
        "Email/set",
        json_of(r#"{"methodResponses": [["Email/set", {"updated": {"e001": null, "e002": null}}, "call-0"]]}"#),
    );

    let action = MoveEmail { email_ids: vec!["e001".into(), "e002".into()], mailbox_id: "mbox-dest".into() };
    let result = to_sj(&action.run(&ctx, &mut mock).expect("move_email should succeed"));
    assert_eq!(result["moved"], 2, "should report two moved emails");
}

#[test]
fn delete_email_permanent_succeeds() {
    let mut mock = Exchange::new(MockJmap::start());
    let ctx = mock_ctx(&mut mock);
    mock.transport.handle_method(
        "Email/set",
        json_of(r#"{"methodResponses": [["Email/set", {"destroyed": ["e001"]}, "call-0"]]}"#),
    );

    let action = DeleteEmail { email_ids: vec!["e001".into()], permanent: true };
    let result = to_sj(&action.run(&ctx, &mut mock).expect("permanent delete should succeed"));
    assert_eq!(result["deleted"], 1, "should report one deleted email");
}

#[test]
fn delete_email_moves_to_trash() {
    let mut mock = Exchange::new(MockJmap::start());
    let ctx = mock_ctx(&mut mock);
    mock.transport.handle_method(
        "Mailbox/get",
        json_of(r#"{"methodResponses": [["Mailbox/get", {"list": [{"id": "mbox-trash", "name": "Trash", "role": "trash"}]}, "call-0"]]}"#),
    );
    mock.transport.handle_method(
        "Email/set",
        json_of(r#"{"methodResponses": [["Email/set", {"updated": {"e001": null}}, "call-0"]]}"#),
    );

    let action = DeleteEmail { email_ids: vec!["e001".into()], permanent: false };
    let result = to_sj(&action.run(&ctx, &mut mock).expect("trash delete should succeed"));
    assert_eq!(result["deleted"], 1, "should report one deleted email");
}

#[test]
fn delete_email_trash_not_found() {
    let mut mock = Exchange::new(MockJmap::start());
    let ctx = mock_ctx(&mut mock);
    mock.transport.handle_method(
        "Mailbox/get",
        json_of(r#"{"methodResponses": [["Mailbox/get", {"list": [{"id": "mbox-1", "name": "Inbox", "role": "inbox"}]}, "call-0"]]}"#),
    );

    let action = DeleteEmail { email_ids: vec!["e001".into()], permanent: false };
    let err = action.run(&ctx, &mut mock).expect_err("should fail without trash mailbox");
    let msg = err.message();
    assert!(msg.contains("trash"), "error should mention trash: {msg}");
}

#[test]
fn get_emails_resolves_mailbox_by_name() {
    let mut mock = Exchange::new(MockJmap::start());
    let ctx = mock_ctx(&mut mock);
    mock.transport.handle_method(
        "Mailbox/get",
        json_of(r#"{"methodResponses": [["Mailbox/get", {"list": [{"id": "mbox-inbox", "name": "Inbox"}]}, "call-0"]]}"#),
    );
    mock.transport.handle_method("Email/query", email_query_get_response());

    let action = GetEmails { mailbox_id: "".into(), mailbox_name: "Inbox".into(), limit: 10, include_body: false };
    let result = to_sj(&action.run(&ctx, &mut mock).expect("get_emails by name should succeed"));
    let emails = result.as_array().expect("result should be array");
    assert!(!emails.is_empty(), "should return at least one email");
}

#[test]
fn move_email_reports_partial_failure() {
    let mut mock = Exchange::new(MockJmap::start());
    let ctx = mock_ctx(&mut mock);
    mock.transport.handle_method(
        "Email/set",
        json_of(
            r#"{"methodResponses": [["Email/set", {
            "updated": {"e001": null},
            "notUpdated": {"e002": {"type": "notFound", "description": "email not found"}}
        }, "call-0"]]}"#,
        ),
    );

    let action = MoveEmail { email_ids: vec!["e001".into(), "e002".into()], mailbox_id: "mbox-1".into() };
    let err = action.run(&ctx, &mut mock).expect_err("should fail on partial failure");
    let msg = err.message();
    assert!(msg.contains("email not found"), "error should contain failure description: {msg}");
}

#[test]
fn get_emails_uses_mailbox_id_directly_returns_subject() {
    let mut mock = Exchange::new(MockJmap::start());
    let ctx = mock_ctx(&mut mock);
    mock.transport.handle_method("Email/query", email_query_get_response());

    let action = GetEmails { mailbox_id: "mbox-1".into(), mailbox_name: "".into(), limit: 10, include_body: false };
    let result = to_sj(&action.run(&ctx, &mut mock).expect("get_emails should succeed"));
    let emails = result.as_array().expect("result should be array");
    assert!(!emails.is_empty(), "should return at least one email");
    assert_eq!(emails[0]["subject"], "Hello", "first email subject should be Hello");
}
// ---- test support: JSON conversion and an in-memory JMAP server ----

const TEST_ACCOUNT_ID: &str = "u1234567";
const BASE_URL: &str = "http://mock.test";

fn to_jv(v: &Value) -> JsonValue {
    match v {
        Value::Null => JsonValue::Null,
        Value::Bool(b) => JsonValue::Bool(*b),
        Value::Number(n) => {
            if let Some(u) = n.as_u64() {
                JsonValue::UInt(u)
            } else if let Some(i) = n.as_i64() {
                JsonValue::Int(i)
            } else {
                JsonValue::Decimal(n.to_string())
            }
        }
        Value::String(s) => JsonValue::Str(s.clone()),
        Value::Array(a) => JsonValue::Array(a.iter().map(to_jv).collect()),
        Value::Object(o) => {
            let mut obj = JsonObject::new();
            for (k, x) in o {
                obj.insert(k.clone(), to_jv(x));
            }
            JsonValue::Object(obj)
        }
    }
}

fn to_sj(v: &JsonValue) -> Value {
    match v {
        JsonValue::Null => Value::Null,
        JsonValue::Bool(b) => Value::Bool(*b),
        JsonValue::UInt(u) => Value::from(*u),
        JsonValue::Int(i) => Value::from(*i),
        JsonValue::Decimal(s) => serde_json::from_str(s).expect("decimal"),
        JsonValue::Str(s) => Value::String(s.clone()),
        JsonValue::Array(a) => Value::Array(a.iter().map(to_sj).collect()),
        JsonValue::Object(o) => {
            let mut m = serde_json::Map::new();
            for (k, x) in o.members() {
                m.insert(k.clone(), to_sj(x));
            }
            Value::Object(m)
        }
    }
}

/// A JMAP server in memory: a session document at `/jmap/session`, and method handlers
/// on `/jmap/api/` chosen by text the request body holds (the latest registered match
/// wins), and blob downloads under `/jmap/download/`.
struct MockJmap {
    handlers: Vec<(Vec<String>, Value)>,
    requests: Vec<Value>,
    session_status: Option<u16>,
    download: Option<Vec<u8>>,
}

impl MockJmap {
    fn start() -> Self {
        MockJmap { handlers: Vec::new(), requests: Vec::new(), session_status: None, download: None }
    }

    fn handle_method(&mut self, method_name: &str, response_body: Value) {
        self.handlers.push((vec![method_name.to_string()], response_body));
    }

    #[allow(dead_code)]
    fn handle_method_matching(&mut self, method_name: &str, body_substr: &str, response_body: Value) {
        self.handlers.push((vec![method_name.to_string(), body_substr.to_string()], response_body));
    }

    fn session_url(&self) -> String {
        format!("{}/jmap/session", BASE_URL)
    }

    fn default_session() -> Value {
        json_of(&format!(
            r#"{{
            "username": "test@fastmail.com",
            "primaryAccounts": {{
                "urn:ietf:params:jmap:core": "{id}",
                "urn:ietf:params:jmap:mail": "{id}",
                "urn:ietf:params:jmap:submission": "{id}",
                "urn:ietf:params:jmap:vacationresponse": "{id}",
                "https://www.fastmail.com/dev/maskedemail": "{id}"
            }},
            "accounts": {{
                "{id}": {{ "name": "test@fastmail.com", "isPersonal": true, "isReadOnly": false }}
            }},
            "apiUrl": "{base}/jmap/api/",
            "downloadUrl": "{base}/jmap/download/",
            "uploadUrl": "{base}/jmap/upload/",
            "capabilities": {{
                "urn:ietf:params:jmap:core": {{
                    "maxSizeUpload": 50000000, "maxCallsInRequest": 64,
                    "maxObjectsInGet": 1000, "maxObjectsInSet": 1000
                }}
            }}
        }}"#,
            id = TEST_ACCOUNT_ID,
            base = BASE_URL
        ))
    }
}

impl HttpTransport for MockJmap {
    fn get_json(&mut self, url: &str, _authorization: &str) -> Result<JsonValue, Error> {
        if url == self.session_url() {
            if let Some(status) = self.session_status {
                return Err(Error::Http(format!("http status: {status}")));
            }
            Ok(to_jv(&MockJmap::default_session()))
        } else {
            Err(Error::Http(format!("{url}: status code 404")))
        }
    }

    fn post_json(&mut self, url: &str, _authorization: &str, body: &JsonValue) -> Result<JsonValue, Error> {
        if url != format!("{}/jmap/api/", BASE_URL) {
            return Err(Error::Http(format!("{url}: status code 404")));
        }
        let sent = to_sj(body);
        let text = serde_json::to_string(&sent).expect("serialise");
        self.requests.push(sent);
        for (needles, reply) in self.handlers.iter().rev() {
            if needles.iter().all(|n| text.contains(n.as_str())) {
                return Ok(to_jv(reply));
            }
        }
        Err(Error::Http(format!("{url}: status code 404")))
    }

    fn get_bytes(&mut self, url: &str, _authorization: &str, limit: u64) -> Result<Vec<u8>, Error> {
        match &self.download {
            Some(bytes) if url.starts_with(&format!("{}/jmap/download/", BASE_URL)) => {
                if bytes.len() as u64 > limit {
                    Err(Error::Http("body exceeds limit".to_string()))
                } else {
                    Ok(bytes.clone())
                }
            }
            _ => Err(Error::Http(format!("{url}: status code 404"))),
        }
    }
}

fn json_of(s: &str) -> Value {
    serde_json::from_str(s).expect("test JSON")
}

#[allow(dead_code)]
fn mock_ctx(mock: &mut Exchange<MockJmap>) -> Context {
    let url = mock.transport.session_url();
    let (client, _) = JmapClient::connect_to(mock, &url, "fake-token").expect("session connect");
    Context { jmap: client, account_id: TEST_ACCOUNT_ID.to_string(), recorder: None }
}

#[allow(dead_code)]
fn validation_ctx() -> Context {
    let client = JmapClient::new("http://localhost:0".to_string(), "fake".to_string());
    Context { jmap: client, account_id: "test".to_string(), recorder: None }
}
