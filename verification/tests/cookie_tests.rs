use cekunit_client::cookies::{
    add_cookies_to_headers, build_cookie_header, extract_cookies, parse_set_cookie,
};

fn lookup<'a>(m: &'a [(String, String)], name: &str) -> Option<&'a str> {
    m.iter().find(|p| p.0 == name).map(|p| p.1.as_str())
}

/// Tests that valid `Set-Cookie` strings are correctly parsed.
#[test]
fn test_parse_set_cookie_valid() {
    assert_eq!(
        parse_set_cookie("session=abc123; Path=/; HttpOnly"),
        Some(("session".to_string(), "abc123".to_string()))
    );
    assert_eq!(
        parse_set_cookie("name=value with space"),
        Some(("name".to_string(), "value with space".to_string()))
    );
    assert_eq!(
        parse_set_cookie("empty="),
        Some(("empty".to_string(), "".to_string()))
    );
}

/// Tests that malformed `Set-Cookie` strings return `None`.
#[test]
fn test_parse_set_cookie_invalid() {
    assert_eq!(parse_set_cookie("=novalue"), None);
    assert_eq!(parse_set_cookie("justname"), None);
    assert_eq!(parse_set_cookie(""), None);
}

/// Tests extraction of multiple cookies from response headers.
#[test]
fn test_extract_cookies_multiple() {
    let headers = vec![
        "user=alice; Path=/".to_string(),
        "lang=en; HttpOnly".to_string(),
        "theme=dark".to_string(),
    ];
    let cookies = extract_cookies(&headers);
    assert_eq!(cookies.len(), 3);
    assert_eq!(lookup(&cookies, "user"), Some("alice"));
    assert_eq!(lookup(&cookies, "lang"), Some("en"));
    assert_eq!(lookup(&cookies, "theme"), Some("dark"));
}

/// Tests building a `Cookie` header string from a cookie map.
#[test]
fn test_build_cookie_header() {
    let cookies = vec![
        ("session".to_string(), "xyz".to_string()),
        ("theme".to_string(), "dark".to_string()),
    ];
    let header = build_cookie_header(&cookies);
    // Order is not guaranteed by the contract, so accept both possibilities.
    assert!(header == "session=xyz; theme=dark" || header == "theme=dark; session=xyz");
}

/// Tests adding cookies to a header list.
#[test]
fn test_add_cookies_to_headers() {
    let cookies = vec![("token".to_string(), "secret".to_string())];
    let mut headers: Vec<(String, String)> = Vec::new();
    add_cookies_to_headers(&mut headers, &cookies).unwrap();
    assert_eq!(lookup(&headers, "Cookie"), Some("token=secret"));
}

/// Tests that adding an empty cookie map does not insert a `Cookie` header.
#[test]
fn test_add_cookies_to_headers_empty() {
    let cookies: Vec<(String, String)> = Vec::new();
    let mut headers: Vec<(String, String)> = Vec::new();
    add_cookies_to_headers(&mut headers, &cookies).unwrap();
    assert!(lookup(&headers, "Cookie").is_none());
}

/// Whitespace around the name and the value is ignored.
#[test]
fn test_parse_set_cookie_whitespace() {
    assert_eq!(
        parse_set_cookie("  name  =  value  ; Path=/"),
        Some(("name".to_string(), "value".to_string()))
    );
    assert_eq!(
        parse_set_cookie("\tsid =\tABC \t"),
        Some(("sid".to_string(), "ABC".to_string()))
    );
}

/// A later cookie with the same name overwrites an earlier one.
#[test]
fn test_extract_cookies_overwrite() {
    let headers = vec!["sid=old".to_string(), "sid=new".to_string()];
    let cookies = extract_cookies(&headers);
    assert_eq!(cookies.len(), 1);
    assert_eq!(lookup(&cookies, "sid"), Some("new"));
}
