use cekunit_client::codec::{session_from_json, session_to_json};
use cekunit_client::session::{CacheData, Cookie};

fn sample_session() -> CacheData {
    CacheData {
        cookies: vec![Cookie {
            name: "sid".to_string(),
            value: "ABC".to_string(),
            domain: "https://t.example".to_string(),
            path: "/".to_string(),
            http_only: true,
            secure: false,
        }],
        csrf_token: "TOK1".to_string(),
        logged_in: true,
        timestamp: 1700000000,
    }
}

fn assert_sessions_equal(a: &CacheData, b: &CacheData) {
    assert_eq!(a.cookies.len(), b.cookies.len());
    for (x, y) in a.cookies.iter().zip(b.cookies.iter()) {
        assert_eq!(x.name, y.name);
        assert_eq!(x.value, y.value);
        assert_eq!(x.domain, y.domain);
        assert_eq!(x.path, y.path);
        assert_eq!(x.http_only, y.http_only);
        assert_eq!(x.secure, y.secure);
    }
    assert_eq!(a.csrf_token, b.csrf_token);
    assert_eq!(a.logged_in, b.logged_in);
    assert_eq!(a.timestamp, b.timestamp);
}

/// Round-trip persistence: loading what was saved yields the same record.
#[test]
fn test_session_round_trip() {
    let s = sample_session();
    let text = session_to_json(&s);
    let back = session_from_json(&text).unwrap();
    assert_sessions_equal(&s, &back);
}

/// A record with no cookies, special characters in the token, and a
/// zero timestamp survives the round trip too.
#[test]
fn test_session_round_trip_edges() {
    let s = CacheData {
        cookies: Vec::new(),
        csrf_token: "with \"quotes\" and \\slashes\\ and\nnewlines\tand tabs".to_string(),
        logged_in: false,
        timestamp: 0,
    };
    let text = session_to_json(&s);
    let back = session_from_json(&text).unwrap();
    assert_sessions_equal(&s, &back);
}

/// The reader accepts any field ordering.
#[test]
fn test_session_any_field_order() {
    let text = r#"{
  "timestamp": 42,
  "logged_in": true,
  "csrf_token": "T",
  "cookies": []
}"#;
    let s = session_from_json(text).unwrap();
    assert_eq!(s.timestamp, 42);
    assert!(s.logged_in);
    assert_eq!(s.csrf_token, "T");
    assert!(s.cookies.is_empty());
}

/// Cookie objects accept any field ordering as well.
#[test]
fn test_cookie_any_field_order() {
    let text = r#"{
  "cookies": [{"secure": false, "http_only": true, "path": "/", "domain": "d", "value": "v", "name": "n"}],
  "csrf_token": "T",
  "logged_in": true,
  "timestamp": 7
}"#;
    let s = session_from_json(text).unwrap();
    assert_eq!(s.cookies.len(), 1);
    assert_eq!(s.cookies[0].name, "n");
    assert_eq!(s.cookies[0].value, "v");
}

/// A missing field, truncated text, or a bare fragment is rejected.
#[test]
fn test_session_malformed_rejected() {
    assert!(session_from_json("").is_err());
    assert!(session_from_json("{").is_err());
    assert!(session_from_json(r#"{"csrf_token": "T", "logged_in": true, "timestamp": 1}"#).is_err());
    let s = sample_session();
    let text = session_to_json(&s);
    let truncated = &text[..text.len() - 2];
    assert!(session_from_json(truncated).is_err());
}

/// A negative timestamp is written with its sign and read back.
#[test]
fn test_session_negative_timestamp() {
    let mut s = sample_session();
    s.timestamp = -5;
    let back = session_from_json(&session_to_json(&s)).unwrap();
    assert_eq!(back.timestamp, -5);
}

/// The persisted document is shaped as expected for a known record.
#[test]
fn test_session_rendered_shape() {
    let s = sample_session();
    let text = session_to_json(&s);
    assert!(text.starts_with("{\n  \"cookies\": ["));
    assert!(text.contains("\"csrf_token\": \"TOK1\""));
    assert!(text.contains("\"logged_in\": true"));
    assert!(text.contains("\"timestamp\": 1700000000"));
    assert!(text.ends_with("\n}"));
}
