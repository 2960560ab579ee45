use fastermail::actions::{Action, Context};
use fastermail::error::Error;
use fastermail::jmap::client::{Exchange, HttpTransport, JmapClient};
use fastermail::json::{JsonObject, JsonValue};
use serde_json::Value;

use fastermail::actions::contact::{
    email_map, flatten_contact, phone_map, ContactEmail, ContactPatch, ContactPhone, CreateContact,
    DeleteContact, GetContacts, ListAddressBooks, SearchContacts, UpdateContact,
};

fn flat_of(card: &str) -> Value {
    to_sj(&flatten_contact(&to_jv(&json_of(card))))
}

fn email_in(s: &str) -> ContactEmail {
    ContactEmail::from_input(&to_jv(&json_of(s)))
}

fn phone_in(s: &str) -> ContactPhone {
    ContactPhone::from_input(&to_jv(&json_of(s)))
}

// -- JSContact helper tests --

#[test]
fn flatten_contact_extracts_full_name() {
    let flat = flat_of(r#"{"id": "c1", "name": {"full": "Alice Smith"}, "addressBookIds": {"ab1": true}}"#);
    assert_eq!(flat["name"], "Alice Smith");
    assert_eq!(flat["id"], "c1");
}

#[test]
fn flatten_contact_joins_name_components() {
    let flat = flat_of(
        r#"{"id": "c2", "name": {"components": [
            {"kind": "given", "value": "Bob"},
            {"kind": "surname", "value": "Jones"}
        ]}}"#,
    );
    assert_eq!(flat["name"], "Bob Jones");
}

#[test]
fn flatten_contact_handles_missing_name() {
    let flat = flat_of(r#"{"id": "c3"}"#);
    assert_eq!(flat["name"], "");
}

#[test]
fn flatten_contact_extracts_emails_phones_company() {
    let flat = flat_of(
        r#"{
        "id": "c1",
        "name": {"full": "Jane Roe"},
        "emails": {
            "e0": {"address": "a@b.com", "contexts": {"work": true}},
            "e1": {"address": "c@d.com"}
        },
        "phones": {"p0": {"number": "+1234", "contexts": {"private": true}}},
        "organizations": {"o0": {"name": "Acme Corp"}}
    }"#,
    );

    assert_eq!(flat["name"], "Jane Roe");
    assert_eq!(flat["company"], "Acme Corp");

    let emails = flat["emails"].as_array().expect("emails array");
    assert_eq!(emails.len(), 2);
    let work = emails.iter().find(|e| e["address"] == "a@b.com").expect("work email");
    assert_eq!(work["type"], "work");
    let other = emails.iter().find(|e| e["address"] == "c@d.com").expect("other email");
    assert_eq!(other["type"], "other");

    let phones = flat["phones"].as_array().expect("phones array");
    assert_eq!(phones.len(), 1);
    assert_eq!(phones[0]["number"], "+1234");
    assert_eq!(phones[0]["type"], "private");
}

#[test]
fn email_map_creates_jscontact_structure() {
    let input = vec![email_in(r#"{"type": "work", "address": "a@b.com"}"#), email_in(r#"{"address": "c@d.com"}"#)];
    let map = to_sj(&email_map(&input));
    let obj = map.as_object().expect("should be object");
    assert_eq!(obj.len(), 2);

    let e0 = &obj["e0"];
    assert_eq!(e0["address"], "a@b.com");
    assert_eq!(e0["contexts"]["work"], true);

    let e1 = &obj["e1"];
    assert_eq!(e1["address"], "c@d.com");
    assert!(e1.get("contexts").is_none(), "other type should omit contexts");
}

#[test]
fn phone_map_creates_jscontact_structure() {
    let input = vec![phone_in(r#"{"type": "private", "number": "+5678"}"#)];
    let map = to_sj(&phone_map(&input));
    let obj = map.as_object().expect("should be object");
    assert_eq!(obj.len(), 1);
    assert_eq!(obj["p0"]["number"], "+5678");
    assert_eq!(obj["p0"]["contexts"]["private"], true);
}

// -- Action tests --

#[test]
fn list_address_books_returns_projected_fields() {
    let mut mock = Exchange::new(MockJmap::start());
    mock.transport.handle_method(
        "AddressBook/get",
        json_of(
            r#"{"methodResponses": [["AddressBook/get", {
            "list": [{
                "id": "ab1", "name": "Personal", "description": null,
                "isDefault": true, "sortOrder": 0, "myRights": {"mayRead": true}
            }]
        }, "call-0"]]}"#,
        ),
    );
    let ctx = mock_ctx(&mut mock);
    let result = to_sj(&ListAddressBooks.run(&ctx, &mut mock).expect("run"));
    let arr = result.as_array().expect("array");
    assert_eq!(arr.len(), 1);
    assert_eq!(arr[0]["id"], "ab1");
    assert_eq!(arr[0]["name"], "Personal");
    assert_eq!(arr[0]["isDefault"], true);
    assert!(arr[0].get("sortOrder").is_none(), "extra fields stripped");
    assert!(arr[0].get("myRights").is_none(), "extra fields stripped");
}

#[test]
fn list_address_books_returns_empty() {
    let mut mock = Exchange::new(MockJmap::start());
    mock.transport.handle_method("AddressBook/get", json_of(r#"{"methodResponses": [["AddressBook/get", {"list": []}, "call-0"]]}"#));
    let ctx = mock_ctx(&mut mock);
    let result = to_sj(&ListAddressBooks.run(&ctx, &mut mock).expect("run"));
    let arr = result.as_array().expect("array");
    assert!(arr.is_empty());
}

#[test]
fn get_contacts_flattens_jscontact() {
    let mut mock = Exchange::new(MockJmap::start());
    mock.transport.handle_method(
        "ContactCard/query",
        json_of(
            r#"{"methodResponses": [
            ["ContactCard/query", {"ids": ["c1"]}, "call-0"],
            ["ContactCard/get", {
                "list": [{
                    "id": "c1",
                    "name": {"full": "Alice"},
                    "emails": {"e0": {"address": "alice@example.com", "contexts": {"work": true}}},
                    "phones": {"p0": {"number": "+1234", "contexts": {"private": true}}},
                    "organizations": {"o0": {"name": "Acme"}},
                    "addressBookIds": {"ab1": true}
                }]
            }, "call-1"]
        ]}"#,
        ),
    );
    let ctx = mock_ctx(&mut mock);
    let result = to_sj(&GetContacts { address_book_id: String::new(), limit: 0 }.run(&ctx, &mut mock).expect("run"));

    let arr = result.as_array().expect("array");
    assert_eq!(arr.len(), 1);
    assert_eq!(arr[0]["id"], "c1");
    assert_eq!(arr[0]["name"], "Alice");
    assert_eq!(arr[0]["company"], "Acme");

    let emails = arr[0]["emails"].as_array().expect("emails array");
    assert_eq!(emails[0]["address"], "alice@example.com");
    assert_eq!(emails[0]["type"], "work");

    let phones = arr[0]["phones"].as_array().expect("phones array");
    assert_eq!(phones[0]["number"], "+1234");
    assert_eq!(phones[0]["type"], "private");

    let ab_ids = arr[0]["addressBookIds"].as_array().expect("addressBookIds");
    assert_eq!(ab_ids, &[Value::String("ab1".to_string())]);
}

#[test]
fn search_contacts_requires_query() {
    let ctx = validation_ctx();
    let mut t = Exchange::new(MockJmap::start());
    let err = SearchContacts { query: String::new(), limit: 0 }.run(&ctx, &mut t).expect_err("should require query");
    assert!(matches!(err, Error::InvalidParams(_)));
}

#[test]
fn search_contacts_returns_results() {
    let mut mock = Exchange::new(MockJmap::start());
    mock.transport.handle_method(
        "ContactCard/query",
        json_of(
            r#"{"methodResponses": [
            ["ContactCard/query", {"ids": ["c1"]}, "call-0"],
            ["ContactCard/get", {"list": [{"id": "c1", "name": {"full": "Alice Smith"}, "addressBookIds": {"ab1": true}}]}, "call-1"]
        ]}"#,
        ),
    );
    let ctx = mock_ctx(&mut mock);
    let result = to_sj(&SearchContacts { query: "alice".to_string(), limit: 0 }.run(&ctx, &mut mock).expect("run"));
    let arr = result.as_array().expect("array");
    assert_eq!(arr.len(), 1);
    assert_eq!(arr[0]["name"], "Alice Smith");
    assert_eq!(mock.transport.requests[0]["methodCalls"][0][1]["filter"]["text"], "alice");
}

#[test]
fn create_contact_requires_name() {
    let ctx = validation_ctx();
    let mut t = Exchange::new(MockJmap::start());
    let err = CreateContact {
        name: String::new(),
        emails: Vec::new(),
        phones: Vec::new(),
        company: String::new(),
        notes: String::new(),
        address_book_id: String::new(),
    }
    .run(&ctx, &mut t)
    .expect_err("should require name");
    assert!(matches!(err, Error::InvalidParams(_)));
}

#[test]
fn create_contact_returns_id() {
    let mut mock = Exchange::new(MockJmap::start());
    mock.transport.handle_method(
        "ContactCard/set",
        json_of(r#"{"methodResponses": [["ContactCard/set", {"created": {"new-contact": {"id": "c-new"}}}, "call-0"]]}"#),
    );
    let ctx = mock_ctx(&mut mock);
    let result = to_sj(
        &CreateContact {
            name: "Bob".to_string(),
            emails: vec![email_in(r#"{"type": "work", "address": "bob@example.com"}"#)],
            phones: Vec::new(),
            company: "Acme".to_string(),
            notes: "A note".to_string(),
            address_book_id: String::new(),
        }
        .run(&ctx, &mut mock)
        .expect("run"),
    );
    assert_eq!(result["contactId"], "c-new");
    let card = &mock.transport.requests[0]["methodCalls"][0][1]["create"]["new-contact"];
    assert_eq!(card["name"]["full"], "Bob");
    assert_eq!(card["organizations"]["o0"]["name"], "Acme");
    assert_eq!(card["notes"], "A note");
}

#[test]
fn update_contact_requires_contact_id() {
    let ctx = validation_ctx();
    let mut t = Exchange::new(MockJmap::start());
    let err = UpdateContact {
        contact_id: String::new(),
        patch: ContactPatch { name: Some("New Name".to_string()), ..Default::default() },
    }
    .run(&ctx, &mut t)
    .expect_err("should require contactId");
    assert!(matches!(err, Error::InvalidParams(_)));
}

#[test]
fn update_contact_requires_at_least_one_field() {
    let ctx = validation_ctx();
    let mut t = Exchange::new(MockJmap::start());
    let err = UpdateContact { contact_id: "c1".to_string(), patch: ContactPatch::default() }
        .run(&ctx, &mut t)
        .expect_err("should require at least one field");
    assert!(matches!(err, Error::InvalidParams(_)));
}

#[test]
fn update_contact_succeeds() {
    let mut mock = Exchange::new(MockJmap::start());
    mock.transport.handle_method("ContactCard/set", json_of(r#"{"methodResponses": [["ContactCard/set", {"updated": {"c1": null}}, "call-0"]]}"#));
    let ctx = mock_ctx(&mut mock);
    let result = to_sj(
        &UpdateContact {
            contact_id: "c1".to_string(),
            patch: ContactPatch { name: Some("Updated Name".to_string()), ..Default::default() },
        }
        .run(&ctx, &mut mock)
        .expect("run"),
    );
    assert_eq!(result["success"], true);
}

#[test]
fn delete_contact_requires_contact_id() {
    let ctx = validation_ctx();
    let mut t = Exchange::new(MockJmap::start());
    let err = DeleteContact { contact_id: String::new() }.run(&ctx, &mut t).expect_err("should require contactId");
    assert!(matches!(err, Error::InvalidParams(_)));
}

#[test]
fn delete_contact_succeeds() {
    let mut mock = Exchange::new(MockJmap::start());
    mock.transport.handle_method("ContactCard/set", json_of(r#"{"methodResponses": [["ContactCard/set", {"destroyed": ["c1"]}, "call-0"]]}"#));
    let ctx = mock_ctx(&mut mock);
    let result = to_sj(&DeleteContact { contact_id: "c1".to_string() }.run(&ctx, &mut mock).expect("run"));
    assert_eq!(result["success"], true);
}

#[test]
fn get_contacts_returns_empty_list() {
    let mut mock = Exchange::new(MockJmap::start());
    mock.transport.handle_method(
        "ContactCard/query",
        json_of(
            r#"{"methodResponses": [
            ["ContactCard/query", {"ids": []}, "call-0"],
            ["ContactCard/get", {"list": []}, "call-1"]
        ]}"#,
        ),
    );
    let ctx = mock_ctx(&mut mock);
    let result = to_sj(&GetContacts { address_book_id: "ab1".to_string(), limit: 10 }.run(&ctx, &mut mock).expect("run"));
    let arr = result.as_array().expect("array");
    assert!(arr.is_empty());
    assert_eq!(mock.transport.requests[0]["methodCalls"][0][1]["filter"]["inAddressBook"], "ab1");
}

#[test]
fn flatten_contact_with_no_emails_phones_orgs() {
    let flat = flat_of(r#"{"id": "c-sparse", "name": {"full": "Sparse Contact"}, "addressBookIds": {"ab1": true}}"#);
    assert_eq!(flat["id"], "c-sparse");
    assert_eq!(flat["name"], "Sparse Contact");
    assert!(flat["emails"].as_array().expect("emails").is_empty());
    assert!(flat["phones"].as_array().expect("phones").is_empty());
    assert_eq!(flat["company"], "");
}

#[test]
fn email_map_empty_input() {
    let map = to_sj(&email_map(&[]));
    let obj = map.as_object().expect("should be object");
    assert!(obj.is_empty());
}

#[test]
fn phone_map_empty_input() {
    let map = to_sj(&phone_map(&[]));
    let obj = map.as_object().expect("should be object");
    assert!(obj.is_empty());
}

#[test]
fn update_contact_clears_company_with_null() {
    let mut mock = Exchange::new(MockJmap::start());
    mock.transport.handle_method("ContactCard/set", json_of(r#"{"methodResponses": [["ContactCard/set", {"updated": {"c1": null}}, "call-0"]]}"#));
    let ctx = mock_ctx(&mut mock);
    let result = to_sj(
        &UpdateContact {
            contact_id: "c1".to_string(),
            patch: ContactPatch { company: Some(String::new()), notes: Some(String::new()), ..Default::default() },
        }
        .run(&ctx, &mut mock)
        .expect("clearing fields should succeed"),
    );
    assert_eq!(result["success"], true);
    let patch = &mock.transport.requests[0]["methodCalls"][0][1]["update"]["c1"];
    assert_eq!(patch["organizations"], Value::Null);
    assert_eq!(patch["notes"], Value::Null);
}

#[test]
fn update_contact_with_emails_and_phones() {
    let mut mock = Exchange::new(MockJmap::start());
    mock.transport.handle_method("ContactCard/set", json_of(r#"{"methodResponses": [["ContactCard/set", {"updated": {"c1": null}}, "call-0"]]}"#));
    let ctx = mock_ctx(&mut mock);
    let result = to_sj(
        &UpdateContact {
            contact_id: "c1".to_string(),
            patch: ContactPatch {
                emails: Some(vec![email_in(r#"{"type": "work", "address": "new@example.com"}"#)]),
                phones: Some(vec![phone_in(r#"{"type": "private", "number": "+9999"}"#)]),
                ..Default::default()
            },
        }
        .run(&ctx, &mut mock)
        .expect("update with emails/phones should succeed"),
    );
    assert_eq!(result["success"], true);
}

#[test]
fn update_contact_surfaces_set_error() {
    let mut mock = Exchange::new(MockJmap::start());
    mock.transport.handle_method(
        "ContactCard/set",
        json_of(r#"{"methodResponses": [["ContactCard/set", {"notUpdated": {"c1": {"type": "notFound", "description": "contact not found"}}}, "call-0"]]}"#),
    );
    let ctx = mock_ctx(&mut mock);
    let err = UpdateContact {
        contact_id: "c1".to_string(),
        patch: ContactPatch { name: Some("X".to_string()), ..Default::default() },
    }
    .run(&ctx, &mut mock)
    .expect_err("should surface notUpdated error");
    let msg = err.message();
    assert!(msg.contains("contact not found"), "error: {msg}");
}

#[test]
fn delete_contact_surfaces_set_error() {
    let mut mock = Exchange::new(MockJmap::start());
    mock.transport.handle_method(
        "ContactCard/set",
        json_of(r#"{"methodResponses": [["ContactCard/set", {"notDestroyed": {"c1": {"type": "notFound", "description": "contact not found"}}}, "call-0"]]}"#),
    );
    let ctx = mock_ctx(&mut mock);
    let err = DeleteContact { contact_id: "c1".to_string() }.run(&ctx, &mut mock).expect_err("should surface notDestroyed error");
    let msg = err.message();
    assert!(msg.contains("contact not found"), "error: {msg}");
}

#[test]
fn create_contact_surfaces_set_error() {
    let mut mock = Exchange::new(MockJmap::start());
    mock.transport.handle_method(
        "ContactCard/set",
        json_of(r#"{"methodResponses": [["ContactCard/set", {"notCreated": {"new-contact": {"type": "invalidProperties", "description": "name is too long"}}}, "call-0"]]}"#),
    );
    let ctx = mock_ctx(&mut mock);
    let err = CreateContact {
        name: "A".to_string(),
        emails: Vec::new(),
        phones: Vec::new(),
        company: String::new(),
        notes: String::new(),
        address_book_id: String::new(),
    }
    .run(&ctx, &mut mock)
    .expect_err("should surface set error");
    let msg = err.message();
    assert!(msg.contains("name is too long"), "error: {msg}");
}
// ---- test support: JSON conversion and an in-memory JMAP server ----

const TEST_ACCOUNT_ID: &str = "u1234567";
const BASE_URL: &str = "http://mock.test";

fn to_jv(v: &Value) -> JsonValue {
    match v {
        Value::Null => JsonValue::Null,
        Value::Bool(b) => JsonValue::Bool(*b),
        Value::Number(n) => {
            if let Some(u) = n.as_u64() {
                JsonValue::UInt(u)
            } else if let Some(i) = n.as_i64() {
                JsonValue::Int(i)
            } else {
                JsonValue::Decimal(n.to_string())
            }
        }
        Value::String(s) => JsonValue::Str(s.clone()),
        Value::Array(a) => JsonValue::Array(a.iter().map(to_jv).collect()),
        Value::Object(o) => {
            let mut obj = JsonObject::new();
            for (k, x) in o {
                obj.insert(k.clone(), to_jv(x));
            }
            JsonValue::Object(obj)
        }
    }
}

fn to_sj(v: &JsonValue) -> Value {
    match v {
        JsonValue::Null => Value::Null,
        JsonValue::Bool(b) => Value::Bool(*b),
        JsonValue::UInt(u) => Value::from(*u),
        JsonValue::Int(i) => Value::from(*i),
        JsonValue::Decimal(s) => serde_json::from_str(s).expect("decimal"),
        JsonValue::Str(s) => Value::String(s.clone()),
        JsonValue::Array(a) => Value::Array(a.iter().map(to_sj).collect()),
        JsonValue::Object(o) => {
            let mut m = serde_json::Map::new();
            for (k, x) in o.members() {
                m.insert(k.clone(), to_sj(x));
            }
            Value::Object(m)
        }
    }
}

/// A JMAP server in memory: a session document at `/jmap/session`, and method handlers
/// on `/jmap/api/` chosen by text the request body holds (the latest registered match
/// wins), and blob downloads under `/jmap/download/`.
struct MockJmap {
    handlers: Vec<(Vec<String>, Value)>,
    requests: Vec<Value>,
    session_status: Option<u16>,
    download: Option<Vec<u8>>,
}

impl MockJmap {
    fn start() -> Self {
        MockJmap { handlers: Vec::new(), requests: Vec::new(), session_status: None, download: None }
    }

    fn handle_method(&mut self, method_name: &str, response_body: Value) {
        self.handlers.push((vec![method_name.to_string()], response_body));
    }

    #[allow(dead_code)]
    fn handle_method_matching(&mut self, method_name: &str, body_substr: &str, response_body: Value) {
        self.handlers.push((vec![method_name.to_string(), body_substr.to_string()], response_body));
    }

    fn session_url(&self) -> String {
        format!("{}/jmap/session", BASE_URL)
    }

    fn default_session() -> Value {
        json_of(&format!(
            r#"{{
            "username": "test@fastmail.com",
            "primaryAccounts": {{
                "urn:ietf:params:jmap:core": "{id}",
                "urn:ietf:params:jmap:mail": "{id}",
                "urn:ietf:params:jmap:submission": "{id}",
                "urn:ietf:params:jmap:vacationresponse": "{id}",
                "https://www.fastmail.com/dev/maskedemail": "{id}"
            }},
            "accounts": {{
                "{id}": {{ "name": "test@fastmail.com", "isPersonal": true, "isReadOnly": false }}
            }},
            "apiUrl": "{base}/jmap/api/",
            "downloadUrl": "{base}/jmap/download/",
            "uploadUrl": "{base}/jmap/upload/",
            "capabilities": {{
                "urn:ietf:params:jmap:core": {{
                    "maxSizeUpload": 50000000, "maxCallsInRequest": 64,
                    "maxObjectsInGet": 1000, "maxObjectsInSet": 1000
                }}
            }}
        }}"#,
            id = TEST_ACCOUNT_ID,
            base = BASE_URL
        ))
    }
}

impl HttpTransport for MockJmap {
    fn get_json(&mut self, url: &str, _authorization: &str) -> Result<JsonValue, Error> {
        if url == self.session_url() {
            if let Some(status) = self.session_status {
                return Err(Error::Http(format!("http status: {status}")));
            }
            Ok(to_jv(&MockJmap::default_session()))
        } else {
            Err(Error::Http(format!("{url}: status code 404")))
        }
    }

    fn post_json(&mut self, url: &str, _authorization: &str, body: &JsonValue) -> Result<JsonValue, Error> {
        if url != format!("{}/jmap/api/", BASE_URL) {
            return Err(Error::Http(format!("{url}: status code 404")));
        }
        let sent = to_sj(body);
        let text = serde_json::to_string(&sent).expect("serialise");
        self.requests.push(sent);
        for (needles, reply) in self.handlers.iter().rev() {
            if needles.iter().all(|n| text.contains(n.as_str())) {
                return Ok(to_jv(reply));
            }
        }
        Err(Error::Http(format!("{url}: status code 404")))
    }

    fn get_bytes(&mut self, url: &str, _authorization: &str, limit: u64) -> Result<Vec<u8>, Error> {
        match &self.download {
            Some(bytes) if url.starts_with(&format!("{}/jmap/download/", BASE_URL)) => {
                if bytes.len() as u64 > limit {
                    Err(Error::Http("body exceeds limit".to_string()))
                } else {
                    Ok(bytes.clone())
                }
            }
            _ => Err(Error::Http(format!("{url}: status code 404"))),
        }
    }
}

fn json_of(s: &str) -> Value {
    serde_json::from_str(s).expect("test JSON")
}

#[allow(dead_code)]
fn mock_ctx(mock: &mut Exchange<MockJmap>) -> Context {
    let url = mock.transport.session_url();
    let (client, _) = JmapClient::connect_to(mock, &url, "fake-token").expect("session connect");
    Context { jmap: client, account_id: TEST_ACCOUNT_ID.to_string(), recorder: None }
}

#[allow(dead_code)]
fn validation_ctx() -> Context {
    let client = JmapClient::new("http://localhost:0".to_string(), "fake".to_string());
    Context { jmap: client, account_id: "test".to_string(), recorder: None }
}
