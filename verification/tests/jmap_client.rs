use fastermail::actions::Context;
use fastermail::error::Error;
use fastermail::jmap::client::{Exchange, HttpTransport, JmapClient};
use fastermail::json::{JsonObject, JsonValue};
use serde_json::Value;

use fastermail::jmap::email::{EmailEnumerator, EmailId, State};
use fastermail::jmap::mailbox::MailboxId;
use fastermail::jmap::types::BlobId;

fn client(mock: &mut Exchange<MockJmap>) -> JmapClient {
    let url = mock.transport.session_url();
    let (client, _) = JmapClient::connect_to(mock, &url, "fake-token").expect("session connect");
    client
}

fn obj_sj(o: &JsonObject) -> Value {
    to_sj(&JsonValue::Object(o.deep_clone()))
}

fn jv(s: &str) -> JsonValue {
    to_jv(&json_of(s))
}

// ---- client ----

#[test]
fn session_discovery_extracts_account_id() {
    let mut mock = Exchange::new(MockJmap::start());
    let url = mock.transport.session_url();
    let (_, session) = JmapClient::connect_to(&mut mock, &url, "fake-token").expect("session discovery should succeed");
    assert_eq!(session.primary_account_id(), Some(TEST_ACCOUNT_ID));
}

#[test]
fn session_discovery_extracts_api_url() {
    let mut mock = Exchange::new(MockJmap::start());
    let url = mock.transport.session_url();
    let (client, _) = JmapClient::connect_to(&mut mock, &url, "fake-token").expect("session discovery should succeed");
    assert!(client.api_url().starts_with(BASE_URL), "API URL should point at mock server, got: {}", client.api_url());
}

#[test]
fn session_fetch_with_401_returns_error() {
    let mut mock = Exchange::new(MockJmap::start());
    mock.transport.session_status = Some(401);
    let url = mock.transport.session_url();
    let err = JmapClient::connect_to(&mut mock, &url, "bad-token").expect_err("401 should produce an error");
    let msg = format!("{err:?}");
    assert!(msg.contains("401") || msg.contains("Http"), "error should indicate auth failure: {msg}");
}

#[test]
fn call_one_returns_response_data() {
    let mut mock = Exchange::new(MockJmap::start());
    mock.transport.handle_method(
        "Mailbox/get",
        json_of(
            r#"{"methodResponses": [
            ["Mailbox/get", {"accountId": "u1234567", "list": [{"id": "mbox-1", "name": "Inbox", "role": "inbox"}]}, "call-0"]
        ]}"#,
        ),
    );
    let c = client(&mut mock);
    let result = to_sj(
        &c.call_one(&mut mock, "urn:ietf:params:jmap:mail", "Mailbox/get", jv(r#"{"accountId": "u1234567", "ids": null}"#))
            .expect("call_one should succeed"),
    );
    let list = result["list"].as_array().expect("should have list");
    assert_eq!(list.len(), 1);
    assert_eq!(list[0]["name"], "Inbox");
    let sent = &mock.transport.requests[0];
    assert_eq!(sent["using"], json_of(r#"["urn:ietf:params:jmap:core", "urn:ietf:params:jmap:mail"]"#));
    assert_eq!(sent["methodCalls"][0][0], "Mailbox/get");
    assert_eq!(sent["methodCalls"][0][2], "call-0");
}

#[test]
fn call_one_maps_jmap_error_response() {
    let mut mock = Exchange::new(MockJmap::start());
    mock.transport.handle_method("Email/get", json_of(r#"{"methodResponses": [["error", {"type": "notFound"}, "call-0"]]}"#));
    let c = client(&mut mock);
    let err = c
        .call_one(&mut mock, "urn:ietf:params:jmap:mail", "Email/get", jv(r#"{"accountId": "u1234567", "ids": ["nonexistent"]}"#))
        .expect_err("JMAP error response should produce an error");
    let msg = err.message();
    assert!(msg.contains("notFound"), "error should contain JMAP error type: {msg}");
}

#[test]
fn call_one_reports_empty_response() {
    let mut mock = Exchange::new(MockJmap::start());
    mock.transport.handle_method("Email/get", json_of(r#"{"methodResponses": []}"#));
    let c = client(&mut mock);
    let err = c.call_one(&mut mock, "urn:ietf:params:jmap:mail", "Email/get", jv("{}")).expect_err("empty");
    assert_eq!(err.message(), "JMAP error in Email/get: empty response");
}

#[test]
fn download_blob_fetches_raw_bytes() {
    let mut mock = Exchange::new(MockJmap::start());
    let raw = b"From: a@b.com\r\nSubject: Hi\r\n\r\nbody";
    mock.transport.download = Some(raw.to_vec());
    let c = client(&mut mock);
    let bytes = c
        .download_blob(&mut mock, TEST_ACCOUNT_ID, &BlobId("blob-1".to_string()), "message.eml", "message/rfc822")
        .expect("download should succeed");
    assert_eq!(bytes, raw);
}

#[test]
fn download_url_fills_template() {
    let mut mock = Exchange::new(MockJmap::start());
    let c = client(&mut mock);
    assert_eq!(
        c.download_url_for("A1", &BlobId("b1".to_string()), "m.eml", "message/rfc822"),
        format!("{}/jmap/download/", BASE_URL)
    );
    let bare = JmapClient::new("https://x/api/".to_string(), "t".to_string());
    assert_eq!(bare.authorization(), "Bearer t");
}

// ---- email ----

fn query_response(ids: &[&str]) -> Value {
    let ids: Vec<Value> = ids.iter().map(|s| Value::String(s.to_string())).collect();
    let mut v = json_of(r#"{"methodResponses": [["Email/query", {"ids": [], "queryState": "s1", "position": 0}, "call-0"]]}"#);
    v["methodResponses"][0][1]["ids"] = Value::Array(ids);
    v
}

fn enumerate(mock: &mut Exchange<MockJmap>, page_size: u32) -> Result<Vec<EmailId>, Error> {
    let c = client(mock);
    let mut e = EmailEnumerator::new(&c, TEST_ACCOUNT_ID.to_string(), JsonValue::Object(JsonObject::new()), page_size);
    e.collect_ids(mock)
}

#[test]
fn single_page_terminates_without_second_window() {
    let mut mock = Exchange::new(MockJmap::start());
    mock.transport.handle_method_matching("Email/query", "\"position\"", query_response(&["e001"]));
    let ids = enumerate(&mut mock, 5).expect("enumerate");
    assert_eq!(ids, vec![EmailId("e001".into())]);
}

#[test]
fn stitches_multiple_windows() {
    let mut mock = Exchange::new(MockJmap::start());
    mock.transport.handle_method_matching("Email/query", "\"position\"", query_response(&["e001", "e002"]));
    mock.transport.handle_method_matching("Email/query", "\"e002\"", query_response(&["e003"]));
    let ids = enumerate(&mut mock, 2).expect("enumerate");
    let strs: Vec<&str> = ids.iter().map(EmailId::as_str).collect();
    assert_eq!(strs, vec!["e001", "e002", "e003"]);
}

#[test]
fn full_final_page_then_empty_window_terminates() {
    let mut mock = Exchange::new(MockJmap::start());
    mock.transport.handle_method_matching("Email/query", "\"position\"", query_response(&["e001", "e002"]));
    mock.transport.handle_method_matching("Email/query", "\"e002\"", query_response(&[]));
    let ids = enumerate(&mut mock, 2).expect("enumerate");
    let strs: Vec<&str> = ids.iter().map(EmailId::as_str).collect();
    assert_eq!(strs, vec!["e001", "e002"]);
}

#[test]
fn dedups_ids_overlapping_between_windows() {
    let mut mock = Exchange::new(MockJmap::start());
    mock.transport.handle_method_matching("Email/query", "\"position\"", query_response(&["e001", "e002"]));
    mock.transport.handle_method_matching("Email/query", "\"e002\"", query_response(&["e002", "e003"]));
    mock.transport.handle_method_matching("Email/query", "\"e003\"", query_response(&[]));
    let ids = enumerate(&mut mock, 2).expect("enumerate");
    let strs: Vec<&str> = ids.iter().map(EmailId::as_str).collect();
    assert_eq!(strs, vec!["e001", "e002", "e003"]);
}

#[test]
fn propagates_midstream_error() {
    let mut mock = Exchange::new(MockJmap::start());
    mock.transport.handle_method_matching("Email/query", "\"position\"", query_response(&["e001", "e002"]));
    mock.transport.handle_method_matching(
        "Email/query",
        "\"e002\"",
        json_of(r#"{"methodResponses": [["error", {"type": "anchorNotFound"}, "call-0"]]}"#),
    );
    let err = enumerate(&mut mock, 2).expect_err("midstream error should propagate");
    assert!(err.message().contains("anchorNotFound"), "error should carry JMAP type: {}", err.message());
}

#[test]
fn next_fetches_a_window_when_the_buffer_is_empty() {
    let mut mock = Exchange::new(MockJmap::start());
    mock.transport.handle_method_matching("Email/query", "\"position\"", query_response(&["e001", "e001", "e002"]));
    let c = client(&mut mock);
    let mut e = EmailEnumerator::new(&c, TEST_ACCOUNT_ID.to_string(), JsonValue::Object(JsonObject::new()), 5);
    let first = e.next(&mut mock).expect("an id").expect("no error");
    assert_eq!(first, EmailId("e001".into()));
    assert_eq!(mock.transport.requests.len(), 1);
    let query = &mock.transport.requests[0]["methodCalls"][0];
    assert_eq!(query[0], "Email/query");
    assert_eq!(query[1]["position"], 0);
    assert_eq!(query[1]["limit"], 5);
    assert_eq!(e.next(&mut mock).expect("an id").expect("no error"), EmailId("e002".into()));
    assert!(e.next(&mut mock).is_none());
    assert!(e.next(&mut mock).is_none());
    assert_eq!(mock.transport.requests.len(), 1, "a short window ends the walk");
}

#[test]
fn next_moves_past_a_full_window_of_ids_already_seen() {
    let mut mock = Exchange::new(MockJmap::start());
    mock.transport.handle_method_matching("Email/query", "\"position\"", query_response(&["e1", "e2"]));
    mock.transport.handle_method_matching("Email/query", "\"e2\"", query_response(&["e2", "e1"]));
    mock.transport.handle_method_matching("Email/query", "\"e1\"", query_response(&["e3"]));
    let c = client(&mut mock);
    let mut e = EmailEnumerator::new(&c, TEST_ACCOUNT_ID.to_string(), JsonValue::Object(JsonObject::new()), 2);
    assert_eq!(e.next(&mut mock).expect("an id").expect("no error"), EmailId("e1".into()));
    assert_eq!(e.next(&mut mock).expect("an id").expect("no error"), EmailId("e2".into()));
    assert_eq!(mock.transport.requests.len(), 1);
    assert_eq!(e.next(&mut mock).expect("an id").expect("no error"), EmailId("e3".into()));
    assert_eq!(mock.transport.requests.len(), 3, "one call fetched the window of seen ids and the next");
    assert_eq!(mock.transport.requests[2]["methodCalls"][0][1]["anchor"], "e1");
    assert_eq!(mock.transport.requests[2]["methodCalls"][0][1]["anchorOffset"], 1);
    assert!(e.next(&mut mock).is_none());
}

#[test]
fn next_returns_a_failed_window_once_then_none() {
    let mut mock = Exchange::new(MockJmap::start());
    mock.transport.handle_method_matching(
        "Email/query",
        "\"position\"",
        json_of(r#"{"methodResponses": [["error", {"type": "serverFail"}, "call-0"]]}"#),
    );
    let c = client(&mut mock);
    let mut e = EmailEnumerator::new(&c, TEST_ACCOUNT_ID.to_string(), JsonValue::Object(JsonObject::new()), 2);
    match e.next(&mut mock) {
        Some(Err(Error::Jmap { method, message })) => {
            assert_eq!(method, "Email/query");
            assert_eq!(message, "serverFail");
        }
        other => panic!("expected the window's error, got {other:?}"),
    }
    assert!(e.next(&mut mock).is_none());
    assert_eq!(mock.transport.requests.len(), 1);
}

#[test]
fn email_changes_returns_delta() {
    let mut mock = Exchange::new(MockJmap::start());
    mock.transport.handle_method(
        "Email/changes",
        json_of(
            r#"{"methodResponses": [["Email/changes", {
            "oldState": "s1", "newState": "s2", "hasMoreChanges": false,
            "created": ["e001"], "updated": ["e002"], "destroyed": ["e003"]
        }, "call-0"]]}"#,
        ),
    );
    let c = client(&mut mock);
    let resp = c.email_changes(&mut mock, TEST_ACCOUNT_ID, &State("s1".into()), None).expect("email_changes");
    assert_eq!(resp.new_state, State("s2".into()));
    assert!(!resp.has_more_changes);
    assert_eq!(resp.created, vec![EmailId("e001".into())]);
    assert_eq!(resp.updated, vec![EmailId("e002".into())]);
    assert_eq!(resp.destroyed, vec![EmailId("e003".into())]);
}

#[test]
fn email_changes_propagates_cannot_calculate() {
    let mut mock = Exchange::new(MockJmap::start());
    mock.transport.handle_method(
        "Email/changes",
        json_of(r#"{"methodResponses": [["error", {"type": "cannotCalculateChanges"}, "call-0"]]}"#),
    );
    let c = client(&mut mock);
    let err = c.email_changes(&mut mock, TEST_ACCOUNT_ID, &State("old".into()), None).expect_err("stale state should error");
    assert!(err.message().contains("cannotCalculateChanges"), "error should carry JMAP type: {}", err.message());
}

#[test]
fn email_blob_id_reads_blob_id() {
    let mut mock = Exchange::new(MockJmap::start());
    mock.transport.handle_method(
        "Email/get",
        json_of(r#"{"methodResponses": [["Email/get", {"list": [{"id": "e001", "blobId": "blob-xyz"}]}, "call-0"]]}"#),
    );
    let c = client(&mut mock);
    let blob = c.email_blob_id(&mut mock, TEST_ACCOUNT_ID, &EmailId("e001".into())).expect("blobId");
    assert_eq!(blob, BlobId("blob-xyz".into()));
}

#[test]
fn email_blob_id_errors_when_missing() {
    let mut mock = Exchange::new(MockJmap::start());
    mock.transport.handle_method("Email/get", json_of(r#"{"methodResponses": [["Email/get", {"list": []}, "call-0"]]}"#));
    let c = client(&mut mock);
    let err = c.email_blob_id(&mut mock, TEST_ACCOUNT_ID, &EmailId("nope".into())).expect_err("missing email should error");
    assert!(err.message().contains("blobId"), "error should mention blobId: {}", err.message());
}

#[test]
fn email_state_reads_top_level_state() {
    let mut mock = Exchange::new(MockJmap::start());
    mock.transport.handle_method(
        "Email/get",
        json_of(r#"{"methodResponses": [["Email/get", {"state": "st-42", "list": [], "notFound": []}, "call-0"]]}"#),
    );
    let c = client(&mut mock);
    let state = c.email_state(&mut mock, TEST_ACCOUNT_ID).expect("email_state");
    assert_eq!(state, State("st-42".into()));
}

#[test]
fn email_state_errors_when_state_missing() {
    let mut mock = Exchange::new(MockJmap::start());
    mock.transport.handle_method("Email/get", json_of(r#"{"methodResponses": [["Email/get", {"list": []}, "call-0"]]}"#));
    let c = client(&mut mock);
    let err = c.email_state(&mut mock, TEST_ACCOUNT_ID).expect_err("missing state should error");
    assert!(err.message().contains("state token"), "error should mention the state token: {}", err.message());
}

#[test]
fn email_get_returns_faithful_email_with_flattened_extras() {
    let mut mock = Exchange::new(MockJmap::start());
    mock.transport.handle_method(
        "Email/get",
        json_of(
            r#"{"methodResponses": [["Email/get", {
            "state": "s1",
            "list": [{"id": "e001", "blobId": "b1", "subject": "Hi", "keywords": {"$seen": true}, "mailboxIds": {"mb1": true}}],
            "notFound": []
        }, "call-0"]]}"#,
        ),
    );
    let c = client(&mut mock);
    let resp = c.email_get(&mut mock, TEST_ACCOUNT_ID, &[EmailId("e001".into())], None).expect("email_get");

    assert_eq!(resp.list.len(), 1);
    let email = &resp.list[0];
    assert_eq!(email.id, EmailId("e001".into()));
    assert_eq!(email.blob_id, Some(BlobId("b1".into())));
    let rest = obj_sj(&email.rest);
    assert_eq!(rest.get("subject"), Some(&json_of(r#""Hi""#)));
    assert_eq!(rest.get("keywords"), Some(&json_of(r#"{"$seen": true}"#)));
    assert_eq!(rest.get("mailboxIds"), Some(&json_of(r#"{"mb1": true}"#)));
    assert!(!email.rest.contains_key("id"));
    assert!(!email.rest.contains_key("blobId"));
    assert_eq!(resp.state, State("s1".into()));
}

#[test]
fn email_get_reports_not_found_ids() {
    let mut mock = Exchange::new(MockJmap::start());
    mock.transport.handle_method(
        "Email/get",
        json_of(r#"{"methodResponses": [["Email/get", {"state": "s1", "list": [], "notFound": ["missing"]}, "call-0"]]}"#),
    );
    let c = client(&mut mock);
    let resp = c.email_get(&mut mock, TEST_ACCOUNT_ID, &[EmailId("missing".into())], None).expect("email_get");
    assert!(resp.list.is_empty());
    assert_eq!(resp.not_found, vec![EmailId("missing".into())]);
}

#[test]
fn email_set_parses_created_updated_destroyed() {
    let mut mock = Exchange::new(MockJmap::start());
    mock.transport.handle_method(
        "Email/set",
        json_of(
            r#"{"methodResponses": [["Email/set", {
            "oldState": "s1", "newState": "s2",
            "created": {"draft": {"id": "e-new", "blobId": "b1"}},
            "updated": {"e001": null},
            "destroyed": ["e002"]
        }, "call-0"]]}"#,
        ),
    );
    let c = client(&mut mock);
    let resp = c
        .email_set(
            &mut mock,
            TEST_ACCOUNT_ID,
            Some(jv(r#"{"draft": {"subject": "Hi"}}"#)),
            Some(jv(r#"{"e001": {"keywords/$seen": true}}"#)),
            &[EmailId("e002".into())],
        )
        .expect("email_set");

    assert_eq!(resp.old_state, Some("s1".to_string()));
    assert_eq!(resp.new_state, Some("s2".to_string()));
    assert_eq!(obj_sj(&resp.created)["draft"]["id"], "e-new");
    assert!(resp.updated.contains_key("e001"));
    assert_eq!(resp.destroyed, vec!["e002".to_string()]);
    let sent = &mock.transport.requests[0]["methodCalls"][0][1];
    assert_eq!(sent["destroy"], json_of(r#"["e002"]"#));
}

#[test]
fn email_set_surfaces_not_updated_set_errors() {
    let mut mock = Exchange::new(MockJmap::start());
    mock.transport.handle_method(
        "Email/set",
        json_of(
            r#"{"methodResponses": [["Email/set", {
            "updated": {},
            "notUpdated": {"e001": {"type": "notFound", "description": "missing"}}
        }, "call-0"]]}"#,
        ),
    );
    let c = client(&mut mock);
    let resp = c.email_set(&mut mock, TEST_ACCOUNT_ID, None, Some(jv(r#"{"e001": {}}"#)), &[]).expect("email_set");
    assert!(resp.updated.is_empty());
    let not_updated = obj_sj(&resp.not_updated);
    let err = not_updated.get("e001").expect("notUpdated entry present");
    assert_eq!(err.get("type"), Some(&json_of(r#""notFound""#)));
}

// ---- mailbox ----

#[test]
fn mailbox_get_returns_faithful_mailbox_with_flattened_extras() {
    let mut mock = Exchange::new(MockJmap::start());
    mock.transport.handle_method(
        "Mailbox/get",
        json_of(
            r#"{"methodResponses": [["Mailbox/get", {
            "state": "s1",
            "list": [{
                "id": "mb1", "name": "Inbox", "role": "inbox", "parentId": null,
                "totalEmails": 42, "unreadEmails": 3, "sortOrder": 1, "totalThreads": 40,
                "unreadThreads": 2, "myRights": {"mayRead": true}, "isSubscribed": true
            }],
            "notFound": []
        }, "call-0"]]}"#,
        ),
    );
    let c = client(&mut mock);
    let resp = c.mailbox_get(&mut mock, TEST_ACCOUNT_ID).expect("mailbox_get");

    assert_eq!(resp.list.len(), 1);
    let mailbox = to_sj(&resp.list[0]);
    assert_eq!(mailbox["id"], "mb1");
    assert_eq!(mailbox.get("name"), Some(&json_of(r#""Inbox""#)));
    assert_eq!(mailbox.get("role"), Some(&json_of(r#""inbox""#)));
    assert_eq!(mailbox.get("parentId"), Some(&Value::Null));
    assert_eq!(mailbox.get("totalEmails"), Some(&json_of("42")));
    assert_eq!(mailbox.get("unreadEmails"), Some(&json_of("3")));
    assert_eq!(mailbox.get("sortOrder"), Some(&json_of("1")));
    assert_eq!(mailbox.get("totalThreads"), Some(&json_of("40")));
    assert_eq!(mailbox.get("unreadThreads"), Some(&json_of("2")));
    assert_eq!(mailbox.get("myRights"), Some(&json_of(r#"{"mayRead": true}"#)));
    assert_eq!(mailbox.get("isSubscribed"), Some(&json_of("true")));
    assert_eq!(resp.state, "s1");
}

#[test]
fn mailbox_get_returns_empty_for_no_data() {
    let mut mock = Exchange::new(MockJmap::start());
    mock.transport.handle_method("Mailbox/get", json_of(r#"{"methodResponses": [["Mailbox/get", {"list": []}, "call-0"]]}"#));
    let c = client(&mut mock);
    let resp = c.mailbox_get(&mut mock, TEST_ACCOUNT_ID).expect("mailbox_get");
    assert!(resp.list.is_empty());
}

#[test]
fn mailbox_set_creates_and_returns_id() {
    let mut mock = Exchange::new(MockJmap::start());
    mock.transport.handle_method(
        "Mailbox/set",
        json_of(r#"{"methodResponses": [["Mailbox/set", {"created": {"new-mailbox": {"id": "mbox-new"}}}, "call-0"]]}"#),
    );
    let c = client(&mut mock);
    let resp = c
        .mailbox_set(&mut mock, TEST_ACCOUNT_ID, Some(jv(r#"{"new-mailbox": {"name": "Projects"}}"#)), None, &[])
        .expect("mailbox_set");
    assert_eq!(obj_sj(&resp.created)["new-mailbox"]["id"], "mbox-new");
    resp.check_errors("Mailbox/set").expect("no set errors");
}

#[test]
fn mailbox_set_destroys() {
    let mut mock = Exchange::new(MockJmap::start());
    mock.transport.handle_method("Mailbox/set", json_of(r#"{"methodResponses": [["Mailbox/set", {"destroyed": ["mb-del"]}, "call-0"]]}"#));
    let c = client(&mut mock);
    let resp = c.mailbox_set(&mut mock, TEST_ACCOUNT_ID, None, None, &[MailboxId("mb-del".into())]).expect("mailbox_set");
    assert_eq!(resp.destroyed, vec!["mb-del".to_string()]);
}

#[test]
fn mailbox_set_surfaces_not_created_set_errors() {
    let mut mock = Exchange::new(MockJmap::start());
    mock.transport.handle_method(
        "Mailbox/set",
        json_of(
            r#"{"methodResponses": [["Mailbox/set", {
            "created": {},
            "notCreated": {"new-mailbox": {"type": "invalidProperties", "description": "bad name"}}
        }, "call-0"]]}"#,
        ),
    );
    let c = client(&mut mock);
    let resp = c
        .mailbox_set(&mut mock, TEST_ACCOUNT_ID, Some(jv(r#"{"new-mailbox": {"name": ""}}"#)), None, &[])
        .expect("mailbox_set");
    let err = resp.check_errors("Mailbox/set").expect_err("set error should surface");
    assert!(err.message().contains("bad name"), "error should carry the SetError description: {}", err.message());
}

// ---- identity ----

#[test]
fn identity_get_returns_faithful_identity_with_flattened_extras() {
    let mut mock = Exchange::new(MockJmap::start());
    mock.transport.handle_method(
        "Identity/get",
        json_of(
            r#"{"methodResponses": [["Identity/get", {
            "state": "s1",
            "list": [{
                "id": "id1", "name": "Alice", "email": "alice@example.com", "replyTo": null,
                "bcc": null, "textSignature": "sig1", "htmlSignature": "<p>sig1</p>", "mayDelete": true
            }],
            "notFound": []
        }, "call-0"]]}"#,
        ),
    );
    let c = client(&mut mock);
    let resp = c.identity_get(&mut mock, TEST_ACCOUNT_ID).expect("identity_get");

    assert_eq!(resp.list.len(), 1);
    let identity = to_sj(&resp.list[0]);
    assert_eq!(identity["id"], "id1");
    assert_eq!(identity.get("name"), Some(&json_of(r#""Alice""#)));
    assert_eq!(identity.get("email"), Some(&json_of(r#""alice@example.com""#)));
    assert_eq!(identity.get("replyTo"), Some(&Value::Null));
    assert_eq!(identity.get("bcc"), Some(&Value::Null));
    assert_eq!(identity.get("textSignature"), Some(&json_of(r#""sig1""#)));
    assert_eq!(identity.get("htmlSignature"), Some(&json_of(r#""<p>sig1</p>""#)));
    assert_eq!(identity.get("mayDelete"), Some(&json_of("true")));
    assert_eq!(resp.state, "s1");
}

#[test]
fn identity_get_returns_empty_for_no_data() {
    let mut mock = Exchange::new(MockJmap::start());
    mock.transport.handle_method("Identity/get", json_of(r#"{"methodResponses": [["Identity/get", {"list": []}, "call-0"]]}"#));
    let c = client(&mut mock);
    let resp = c.identity_get(&mut mock, TEST_ACCOUNT_ID).expect("identity_get");
    assert!(resp.list.is_empty());
}

// ---- masked email ----

#[test]
fn masked_email_get_returns_faithful_object_with_flattened_extras() {
    let mut mock = Exchange::new(MockJmap::start());
    mock.transport.handle_method(
        "MaskedEmail/get",
        json_of(
            r#"{"methodResponses": [["MaskedEmail/get", {
            "state": "s1",
            "list": [{
                "id": "me1", "email": "abc@fastmail.com", "forDomain": "example.com",
                "description": "Test", "state": "enabled", "createdAt": "2026-01-01",
                "lastMessageAt": "2026-03-01", "url": "https://example.com"
            }],
            "notFound": []
        }, "call-0"]]}"#,
        ),
    );
    let c = client(&mut mock);
    let resp = c.masked_email_get(&mut mock, TEST_ACCOUNT_ID).expect("masked_email_get");

    assert_eq!(resp.list.len(), 1);
    let masked = to_sj(&resp.list[0]);
    assert_eq!(masked["id"], "me1");
    assert_eq!(masked.get("email"), Some(&json_of(r#""abc@fastmail.com""#)));
    assert_eq!(masked.get("forDomain"), Some(&json_of(r#""example.com""#)));
    assert_eq!(masked.get("description"), Some(&json_of(r#""Test""#)));
    assert_eq!(masked.get("state"), Some(&json_of(r#""enabled""#)));
    assert_eq!(masked.get("createdAt"), Some(&json_of(r#""2026-01-01""#)));
    assert_eq!(masked.get("lastMessageAt"), Some(&json_of(r#""2026-03-01""#)));
    assert_eq!(masked.get("url"), Some(&json_of(r#""https://example.com""#)));
    assert_eq!(resp.state, "s1");
}

#[test]
fn masked_email_get_returns_empty_for_no_data() {
    let mut mock = Exchange::new(MockJmap::start());
    mock.transport.handle_method("MaskedEmail/get", json_of(r#"{"methodResponses": [["MaskedEmail/get", {"list": []}, "call-0"]]}"#));
    let c = client(&mut mock);
    let resp = c.masked_email_get(&mut mock, TEST_ACCOUNT_ID).expect("masked_email_get");
    assert!(resp.list.is_empty());
}

#[test]
fn masked_email_set_creates_faithful_object() {
    let mut mock = Exchange::new(MockJmap::start());
    mock.transport.handle_method(
        "MaskedEmail/set",
        json_of(
            r#"{"methodResponses": [["MaskedEmail/set", {
            "created": {"new-masked": {"id": "me-new", "email": "new@fastmail.com", "state": "enabled", "forDomain": "mysite.com"}}
        }, "call-0"]]}"#,
        ),
    );
    let c = client(&mut mock);
    let resp = c
        .masked_email_set(&mut mock, TEST_ACCOUNT_ID, Some(jv(r#"{"new-masked": {"state": "enabled"}}"#)), None, &[])
        .expect("masked_email_set");
    let created = obj_sj(&resp.created);
    assert_eq!(created["new-masked"]["id"], "me-new");
    assert_eq!(created["new-masked"]["forDomain"], "mysite.com");
    assert_eq!(created["new-masked"]["state"], "enabled");
    resp.check_errors("MaskedEmail/set").expect("no set errors");
}

#[test]
fn masked_email_set_updates() {
    let mut mock = Exchange::new(MockJmap::start());
    mock.transport.handle_method("MaskedEmail/set", json_of(r#"{"methodResponses": [["MaskedEmail/set", {"updated": {"me1": null}}, "call-0"]]}"#));
    let c = client(&mut mock);
    let resp = c
        .masked_email_set(&mut mock, TEST_ACCOUNT_ID, None, Some(jv(r#"{"me1": {"state": "disabled"}}"#)), &[])
        .expect("masked_email_set");
    assert!(resp.updated.contains_key("me1"));
    resp.check_errors("MaskedEmail/set").expect("no set errors");
}

#[test]
fn masked_email_set_surfaces_not_created_set_errors() {
    let mut mock = Exchange::new(MockJmap::start());
    mock.transport.handle_method(
        "MaskedEmail/set",
        json_of(
            r#"{"methodResponses": [["MaskedEmail/set", {
            "created": {},
            "notCreated": {"new-masked": {"type": "invalidProperties", "description": "bad"}}
        }, "call-0"]]}"#,
        ),
    );
    let c = client(&mut mock);
    let resp = c
        .masked_email_set(&mut mock, TEST_ACCOUNT_ID, Some(jv(r#"{"new-masked": {"state": "enabled"}}"#)), None, &[])
        .expect("masked_email_set");
    let err = resp.check_errors("MaskedEmail/set").expect_err("set error should surface");
    assert!(err.message().contains("bad"), "error should carry the SetError description: {}", err.message());
}

// ---- vacation ----

#[test]
fn vacation_get_returns_faithful_singleton_with_flattened_extras() {
    let mut mock = Exchange::new(MockJmap::start());
    mock.transport.handle_method(
        "VacationResponse/get",
        json_of(
            r#"{"methodResponses": [["VacationResponse/get", {
            "state": "s1",
            "list": [{
                "id": "singleton", "isEnabled": true, "fromDate": "2026-01-01T00:00:00Z",
                "toDate": "2026-01-15T00:00:00Z", "subject": "OOO", "textBody": "Away", "htmlBody": "<p>Away</p>"
            }],
            "notFound": []
        }, "call-0"]]}"#,
        ),
    );
    let c = client(&mut mock);
    let resp = c.vacation_get(&mut mock, TEST_ACCOUNT_ID).expect("vacation_get");

    assert_eq!(resp.list.len(), 1);
    let vacation = to_sj(&resp.list[0]);
    assert_eq!(vacation["id"], "singleton");
    assert_eq!(vacation.get("isEnabled"), Some(&json_of("true")));
    assert_eq!(vacation.get("fromDate"), Some(&json_of(r#""2026-01-01T00:00:00Z""#)));
    assert_eq!(vacation.get("subject"), Some(&json_of(r#""OOO""#)));
    assert_eq!(vacation.get("textBody"), Some(&json_of(r#""Away""#)));
    assert_eq!(vacation.get("htmlBody"), Some(&json_of(r#""<p>Away</p>""#)));
    assert_eq!(resp.state, "s1");
}

#[test]
fn vacation_get_returns_empty_for_no_data() {
    let mut mock = Exchange::new(MockJmap::start());
    mock.transport.handle_method("VacationResponse/get", json_of(r#"{"methodResponses": [["VacationResponse/get", {"list": []}, "call-0"]]}"#));
    let c = client(&mut mock);
    let resp = c.vacation_get(&mut mock, TEST_ACCOUNT_ID).expect("vacation_get");
    assert!(resp.list.is_empty());
}

#[test]
fn vacation_set_updates_singleton() {
    let mut mock = Exchange::new(MockJmap::start());
    mock.transport.handle_method(
        "VacationResponse/set",
        json_of(r#"{"methodResponses": [["VacationResponse/set", {"oldState": "s1", "newState": "s2", "updated": {"singleton": null}}, "call-0"]]}"#),
    );
    let c = client(&mut mock);
    let resp = c.vacation_set(&mut mock, TEST_ACCOUNT_ID, jv(r#"{"isEnabled": true}"#)).expect("vacation_set");
    assert_eq!(resp.new_state, Some("s2".to_string()));
    assert!(resp.updated.contains_key("singleton"));
    resp.check_errors("VacationResponse/set").expect("no set errors");
}

#[test]
fn vacation_set_surfaces_not_updated_set_errors() {
    let mut mock = Exchange::new(MockJmap::start());
    mock.transport.handle_method(
        "VacationResponse/set",
        json_of(
            r#"{"methodResponses": [["VacationResponse/set", {
            "updated": {},
            "notUpdated": {"singleton": {"type": "invalidProperties", "description": "bad"}}
        }, "call-0"]]}"#,
        ),
    );
    let c = client(&mut mock);
    let resp = c.vacation_set(&mut mock, TEST_ACCOUNT_ID, jv(r#"{"isEnabled": true}"#)).expect("vacation_set");
    let err = resp.check_errors("VacationResponse/set").expect_err("set error should surface");
    assert!(err.message().contains("bad"), "error should carry the SetError description: {}", err.message());
}

// ---- connecting ----

#[test]
fn connect_builds_context_for_primary_account() {
    let mut mock = Exchange::new(MockJmap::start());
    let url = mock.transport.session_url();
    let ctx = fastermail::actions::connect(&mut mock, &url, "tok", None).expect("connect");
    assert_eq!(ctx.account_id, TEST_ACCOUNT_ID);
    assert_eq!(ctx.jmap.api_url(), format!("{}/jmap/api/", BASE_URL));
    assert_eq!(ctx.jmap.authorization(), "Bearer tok");
    let err = fastermail::actions::account_of(&fastermail::jmap::types::Session::default()).expect_err("no account");
    assert_eq!(err.message(), "JMAP error in session: no primary account found in JMAP session");
}
// ---- test support: JSON conversion and an in-memory JMAP server ----

const TEST_ACCOUNT_ID: &str = "u1234567";
const BASE_URL: &str = "http://mock.test";

fn to_jv(v: &Value) -> JsonValue {
    match v {
        Value::Null => JsonValue::Null,
        Value::Bool(b) => JsonValue::Bool(*b),
        Value::Number(n) => {
            if let Some(u) = n.as_u64() {
                JsonValue::UInt(u)
            } else if let Some(i) = n.as_i64() {
                JsonValue::Int(i)
            } else {
                JsonValue::Decimal(n.to_string())
            }
        }
        Value::String(s) => JsonValue::Str(s.clone()),
        Value::Array(a) => JsonValue::Array(a.iter().map(to_jv).collect()),
        Value::Object(o) => {
            let mut obj = JsonObject::new();
            for (k, x) in o {
                obj.insert(k.clone(), to_jv(x));
            }
            JsonValue::Object(obj)
        }
    }
}

fn to_sj(v: &JsonValue) -> Value {
    match v {
        JsonValue::Null => Value::Null,
        JsonValue::Bool(b) => Value::Bool(*b),
        JsonValue::UInt(u) => Value::from(*u),
        JsonValue::Int(i) => Value::from(*i),
        JsonValue::Decimal(s) => serde_json::from_str(s).expect("decimal"),
        JsonValue::Str(s) => Value::String(s.clone()),
        JsonValue::Array(a) => Value::Array(a.iter().map(to_sj).collect()),
        JsonValue::Object(o) => {
            let mut m = serde_json::Map::new();
            for (k, x) in o.members() {
                m.insert(k.clone(), to_sj(x));
            }
            Value::Object(m)
        }
    }
}

/// A JMAP server in memory: a session document at `/jmap/session`, and method handlers
/// on `/jmap/api/` chosen by text the request body holds (the latest registered match
/// wins), and blob downloads under `/jmap/download/`.
struct MockJmap {
    handlers: Vec<(Vec<String>, Value)>,
    requests: Vec<Value>,
    session_status: Option<u16>,
    download: Option<Vec<u8>>,
}

impl MockJmap {
    fn start() -> Self {
        MockJmap { handlers: Vec::new(), requests: Vec::new(), session_status: None, download: None }
    }

    fn handle_method(&mut self, method_name: &str, response_body: Value) {
        self.handlers.push((vec![method_name.to_string()], response_body));
    }

    #[allow(dead_code)]
    fn handle_method_matching(&mut self, method_name: &str, body_substr: &str, response_body: Value) {
        self.handlers.push((vec![method_name.to_string(), body_substr.to_string()], response_body));
    }

    fn session_url(&self) -> String {
        format!("{}/jmap/session", BASE_URL)
    }

    fn default_session() -> Value {
        json_of(&format!(
            r#"{{
            "username": "test@fastmail.com",
            "primaryAccounts": {{
                "urn:ietf:params:jmap:core": "{id}",
                "urn:ietf:params:jmap:mail": "{id}",
                "urn:ietf:params:jmap:submission": "{id}",
                "urn:ietf:params:jmap:vacationresponse": "{id}",
                "https://www.fastmail.com/dev/maskedemail": "{id}"
            }},
            "accounts": {{
                "{id}": {{ "name": "test@fastmail.com", "isPersonal": true, "isReadOnly": false }}
            }},
            "apiUrl": "{base}/jmap/api/",
            "downloadUrl": "{base}/jmap/download/",
            "uploadUrl": "{base}/jmap/upload/",
            "capabilities": {{
                "urn:ietf:params:jmap:core": {{
                    "maxSizeUpload": 50000000, "maxCallsInRequest": 64,
                    "maxObjectsInGet": 1000, "maxObjectsInSet": 1000
                }}
            }}
        }}"#,
            id = TEST_ACCOUNT_ID,
            base = BASE_URL
        ))
    }
}

impl HttpTransport for MockJmap {
    fn get_json(&mut self, url: &str, _authorization: &str) -> Result<JsonValue, Error> {
        if url == self.session_url() {
            if let Some(status) = self.session_status {
                return Err(Error::Http(format!("http status: {status}")));
            }
            Ok(to_jv(&MockJmap::default_session()))
        } else {
            Err(Error::Http(format!("{url}: status code 404")))
        }
    }

    fn post_json(&mut self, url: &str, _authorization: &str, body: &JsonValue) -> Result<JsonValue, Error> {
        if url != format!("{}/jmap/api/", BASE_URL) {
            return Err(Error::Http(format!("{url}: status code 404")));
        }
        let sent = to_sj(body);
        let text = serde_json::to_string(&sent).expect("serialise");
        self.requests.push(sent);
        for (needles, reply) in self.handlers.iter().rev() {
            if needles.iter().all(|n| text.contains(n.as_str())) {
                return Ok(to_jv(reply));
            }
        }
        Err(Error::Http(format!("{url}: status code 404")))
    }

    fn get_bytes(&mut self, url: &str, _authorization: &str, limit: u64) -> Result<Vec<u8>, Error> {
        match &self.download {
            Some(bytes) if url.starts_with(&format!("{}/jmap/download/", BASE_URL)) => {
                if bytes.len() as u64 > limit {
                    Err(Error::Http("body exceeds limit".to_string()))
                } else {
                    Ok(bytes.clone())
                }
            }
            _ => Err(Error::Http(format!("{url}: status code 404"))),
        }
    }
}

fn json_of(s: &str) -> Value {
    serde_json::from_str(s).expect("test JSON")
}

#[allow(dead_code)]
fn mock_ctx(mock: &mut Exchange<MockJmap>) -> Context {
    let url = mock.transport.session_url();
    let (client, _) = JmapClient::connect_to(mock, &url, "fake-token").expect("session connect");
    Context { jmap: client, account_id: TEST_ACCOUNT_ID.to_string(), recorder: None }
}

#[allow(dead_code)]
fn validation_ctx() -> Context {
    let client = JmapClient::new("http://localhost:0".to_string(), "fake".to_string());
    Context { jmap: client, account_id: "test".to_string(), recorder: None }
}
