use cekunit_client::token::extract_csrf_token;

/// Tests that a token is correctly extracted from an input element.
#[test]
fn test_extract_from_input_success() {
    let html = r#"<input type="hidden" name="_token" value="abc123xyz">"#;
    assert_eq!(extract_csrf_token(html).unwrap(), "abc123xyz");
}

/// Tests that whitespace around the token value is trimmed.
#[test]
fn test_extract_from_input_with_whitespace() {
    let html = r#"<input name="_token" value="   spaced-token   ">"#;
    assert_eq!(extract_csrf_token(html).unwrap(), "spaced-token");
}

/// Tests that an empty value in the input element results in an error.
#[test]
fn test_extract_from_input_empty_value() {
    let html = r#"<input name="_token" value="">"#;
    assert!(extract_csrf_token(html).is_err());
}

/// Tests that a token is correctly extracted from a meta tag.
#[test]
fn test_extract_from_meta_success() {
    let html = r#"<meta name="csrf-token" content="meta-token-456">"#;
    assert_eq!(extract_csrf_token(html).unwrap(), "meta-token-456");
}

/// Tests that whitespace around the meta content is trimmed.
#[test]
fn test_extract_from_meta_with_whitespace() {
    let html = r#"<meta name="csrf-token" content="   token-with-spaces   ">"#;
    assert_eq!(extract_csrf_token(html).unwrap(), "token-with-spaces");
}

/// Tests that an empty content in the meta tag results in an error.
#[test]
fn test_extract_from_meta_empty_content() {
    let html = r#"<meta name="csrf-token" content="">"#;
    assert!(extract_csrf_token(html).is_err());
}

/// Tests that when no token element exists, an error is returned.
#[test]
fn test_no_token() {
    let html = r#"<html><body>No token here</body></html>"#;
    assert!(extract_csrf_token(html).is_err());
}

/// Tests that when both input and meta are present, the input takes precedence.
#[test]
fn test_both_present_input_takes_precedence() {
    let html = r#"
        <input name="_token" value="input-token">
        <meta name="csrf-token" content="meta-token">
    "#;
    assert_eq!(extract_csrf_token(html).unwrap(), "input-token");
}

/// Tests that the parser is resilient to slightly malformed HTML.
#[test]
fn test_malformed_html_graceful() {
    let html = r#"<input name="_token" value="abc"</input>"#;
    assert_eq!(extract_csrf_token(html).unwrap(), "abc");
}
