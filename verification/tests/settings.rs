use fastermail::cli::io::{Io, OutputMode};
use fastermail::cli::views::{
    identity_header, identity_row, mailbox_header, mailbox_row, masked_email_row, pad_left, rule, vacation_choice,
    vacation_details, vacation_is_enabled,
};
use fastermail::config::{check_permissions, choose_token, config_contents, config_path, env_token_usable, join_path, TokenSource};
use fastermail::dotenv::parse_dotenv;
use fastermail::error::Error;
use fastermail::json::{JsonObject, JsonValue};
use fastermail::logging::{enabled, log_line, min_level, parse_level, Level};
use serde_json::Value;

fn to_jv(v: &Value) -> JsonValue {
    match v {
        Value::Null => JsonValue::Null,
        Value::Bool(b) => JsonValue::Bool(*b),
        Value::Number(n) => match n.as_u64() {
            Some(u) => JsonValue::UInt(u),
            None => match n.as_i64() {
                Some(i) => JsonValue::Int(i),
                None => JsonValue::Decimal(n.to_string()),
            },
        },
        Value::String(s) => JsonValue::Str(s.clone()),
        Value::Array(a) => JsonValue::Array(a.iter().map(to_jv).collect()),
        Value::Object(o) => {
            let mut obj = JsonObject::new();
            for (k, x) in o {
                obj.insert(k.clone(), to_jv(x));
            }
            JsonValue::Object(obj)
        }
    }
}

fn jv(s: &str) -> JsonValue {
    to_jv(&serde_json::from_str(s).expect("test JSON"))
}

// ---- config ----

#[test]
fn test_config_path_uses_xdg() {
    let path = config_path(Some("/xdg"), Some("/home/u"));
    assert!(path.ends_with("fastermail/config.toml"));
    assert_eq!(path, "/xdg/fastermail/config.toml");
}

#[test]
fn config_path_falls_back_to_home() {
    assert_eq!(config_path(None, Some("/home/u")), "/home/u/.config/fastermail/config.toml");
    assert_eq!(config_path(None, None), "./.config/fastermail/config.toml");
    assert_eq!(config_path(Some("/xdg/"), None), "/xdg/fastermail/config.toml");
    assert_eq!(join_path("", "a"), "a");
}

#[test]
fn test_check_permissions_rejects_world_readable() {
    let result = check_permissions("/tmp/fastermail-test-perms/config.toml", 0o100644);
    assert!(result.is_err());
    match result {
        Err(Error::InvalidParams(m)) => assert_eq!(
            m,
            "config file /tmp/fastermail-test-perms/config.toml has insecure permissions 0644 (expected 0600). \
             Fix with: chmod 600 /tmp/fastermail-test-perms/config.toml"
        ),
        _ => panic!("expected a refusal"),
    }
    let result = check_permissions("/tmp/fastermail-test-perms/config.toml", 0o100600);
    assert!(result.is_ok());
    assert!(check_permissions("c", 0o640).is_err());
    assert!(check_permissions("c", 0o601).is_err());
    assert!(check_permissions("c", 0o700).is_ok());
}

#[test]
fn token_precedence_env_over_file() {
    let (t, s) = choose_token(Some("env-tok".to_string()), Some("file-tok".to_string())).expect("token");
    assert_eq!((t.as_str(), s), ("env-tok", TokenSource::EnvVar));
    let (t, s) = choose_token(Some(String::new()), Some("file-tok".to_string())).expect("token");
    assert_eq!((t.as_str(), s), ("file-tok", TokenSource::ConfigFile));
    let (t, s) = choose_token(None, Some("file-tok".to_string())).expect("token");
    assert_eq!((t.as_str(), s), ("file-tok", TokenSource::ConfigFile));
    assert!(matches!(choose_token(None, Some(String::new())), Err(Error::MissingToken)));
    assert!(matches!(choose_token(None, None), Err(Error::MissingToken)));
    assert!(env_token_usable(&Some("x".to_string())));
    assert!(!env_token_usable(&Some(String::new())));
    assert!(!env_token_usable(&None));
}

#[test]
fn config_contents_quotes_the_token() {
    assert_eq!(config_contents("fmu1-test-token"), "[auth]\ntoken = \"fmu1-test-token\"\n");
    let written = config_contents("a\"b");
    let parsed: toml::Value = toml::from_str(&written).expect("valid toml");
    assert_eq!(parsed["auth"]["token"].as_str(), Some("a\"b"));
}

// ---- logging ----

#[test]
fn levels_parse_and_filter() {
    assert_eq!(parse_level("DEBUG"), Some(Level::Debug));
    assert_eq!(parse_level("warn"), Some(Level::Warn));
    assert_eq!(parse_level("verbose"), None);
    for l in [Level::Trace, Level::Debug, Level::Info, Level::Warn, Level::Error] {
        assert_eq!(parse_level(l.label()), Some(l));
    }
    assert_eq!(parse_level("ÉRROR"), None);
    assert_eq!(min_level(None), Level::Info);
    assert_eq!(min_level(Some("bogus")), Level::Info);
    assert_eq!(min_level(Some("trace")), Level::Trace);
    assert!(enabled(Level::Error, Level::Info));
    assert!(enabled(Level::Info, Level::Info));
    assert!(!enabled(Level::Debug, Level::Info));
    assert_eq!(log_line(Level::Warn, "jmap", "slow"), "[fastermail] [WARN] [jmap] slow");
    assert_eq!(Level::Trace.label(), "TRACE");
}

// ---- dotenv ----

#[test]
fn dotenv_reads_settings_in_order() {
    let text = "# comment\nA=1\n  B = two words  \n\nnot a setting\n=novalue\nC=x=y\r\nA=3";
    let got = parse_dotenv(text);
    let pairs: Vec<(&str, &str)> = got.iter().map(|(k, v)| (k.as_str(), v.as_str())).collect();
    assert_eq!(pairs, vec![("A", "1"), ("B", "two words"), ("C", "x=y"), ("A", "3")]);
    assert!(parse_dotenv("").is_empty());
}

#[test]
fn dotenv_joined_texts_concatenate_settings() {
    let a = "X=1\n#c";
    let b = "Y=2";
    let joined = format!("{a}\n{b}");
    let mut both = parse_dotenv(a);
    both.extend(parse_dotenv(b));
    assert_eq!(parse_dotenv(&joined), both);
}

// ---- output mode ----

#[test]
fn output_mode_precedence() {
    assert_eq!(OutputMode::detect(true, true, true), OutputMode::Raw);
    assert_eq!(OutputMode::detect(true, false, true), OutputMode::Json);
    assert_eq!(OutputMode::detect(false, false, true), OutputMode::Human);
    assert_eq!(OutputMode::detect(false, false, false), OutputMode::Json);
    let io = Io::new(OutputMode::Json);
    assert_eq!(io.mode(), OutputMode::Json);
    assert!(!io.shows_status());
    assert!(Io::new(OutputMode::Human).shows_status());
}

// ---- tables ----

#[test]
fn tables_pad_their_columns() {
    assert_eq!(pad_left("42", 6), "    42");
    assert_eq!(rule(3), "───");
    let row = mailbox_row(&jv(r#"{"id": "mb1", "name": "Inbox", "role": "inbox", "totalEmails": 42, "unreadEmails": 3}"#));
    assert_eq!(row, format!("{:<40} {:<20} {:<10} {:>6} {:>6}", "mb1", "Inbox", "inbox", 42, 3));
    assert_eq!(mailbox_header(), format!("{:<40} {:<20} {:<10} {:>6} {:>6}", "ID", "NAME", "ROLE", "TOTAL", "UNREAD"));
    let ident = identity_row(&jv(r#"{"id": "id1", "name": "Alice", "email": "a@b.com"}"#));
    assert_eq!(ident, format!("{:<40} {:<24} {}", "id1", "Alice", "a@b.com"));
    assert_eq!(identity_header(), format!("{:<40} {:<24} {}", "ID", "NAME", "EMAIL"));
    let masked = masked_email_row(&jv(r#"{"id": "me1", "email": "x@f.com", "forDomain": "d.com", "state": "enabled"}"#));
    assert_eq!(masked, format!("{:<40} {:<32} {:<16} {:<10} {}", "me1", "x@f.com", "d.com", "enabled", ""));
}

#[test]
fn vacation_view_lines() {
    let v = jv(r#"{"isEnabled": true, "fromDate": "2026-01-01", "toDate": "", "subject": "OOO", "textBody": 5}"#);
    assert!(vacation_is_enabled(&v));
    let details = vacation_details(&v);
    assert_eq!(details, vec![("From".to_string(), "2026-01-01".to_string()), ("Subject".to_string(), "OOO".to_string())]);
    assert!(!vacation_is_enabled(&jv("{}")));
    assert_eq!(vacation_choice(false, true).expect("choice"), false);
    let err = vacation_choice(false, false).err().expect("refused");
    assert_eq!(err.message(), "invalid params: must specify --enabled or --disabled");
}
