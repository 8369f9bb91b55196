use cekunit_client::error::ApiError;
use cekunit_client::gate::{headers_for, require};
use cekunit_client::login::{
    build_base_headers, build_cache_data, build_login_form, csrf_from_response,
    validate_credentials, validate_login_response,
};
use cekunit_client::logout::{
    build_logout_form, logout_plan, logout_success_status, map_logout_error, LogoutPlan,
};
use cekunit_client::retry::{
    is_retryable, AttemptOutcome, RetryDecision, RetryPolicy,
};
use cekunit_client::session::{CacheData, Cookie};
use cekunit_client::store::CacheManager;

fn logged_in_session() -> CacheData {
    CacheData {
        cookies: vec![Cookie {
            name: "sid".to_string(),
            value: "ABC".to_string(),
            domain: "https://t.example".to_string(),
            path: "/".to_string(),
            http_only: true,
            secure: false,
        }],
        csrf_token: "TOK3".to_string(),
        logged_in: true,
        timestamp: 1700000000,
    }
}

/// The standard schedule retries a network error twice, with delays of
/// 100 ms and 200 ms, and gives up after the third attempt.
#[test]
fn test_retry_schedule_network_error() {
    let p = RetryPolicy::default();
    assert!(matches!(
        p.decide(1, &AttemptOutcome::NetworkError),
        RetryDecision::SleepThenRetry(100)
    ));
    assert!(matches!(
        p.decide(2, &AttemptOutcome::NetworkError),
        RetryDecision::SleepThenRetry(200)
    ));
    assert!(matches!(p.decide(3, &AttemptOutcome::NetworkError), RetryDecision::Finish));
}

/// A 422 answer is final: the operation runs exactly once.
#[test]
fn test_no_retry_on_422() {
    let p = RetryPolicy::default();
    assert!(!is_retryable(&AttemptOutcome::HttpStatus(422)));
    assert!(matches!(p.decide(1, &AttemptOutcome::HttpStatus(422)), RetryDecision::Finish));
}

/// Server errors are retried; client errors and success are not.
#[test]
fn test_retry_classification() {
    assert!(is_retryable(&AttemptOutcome::NetworkError));
    assert!(is_retryable(&AttemptOutcome::HttpStatus(500)));
    assert!(is_retryable(&AttemptOutcome::HttpStatus(503)));
    assert!(!is_retryable(&AttemptOutcome::HttpStatus(404)));
    assert!(!is_retryable(&AttemptOutcome::HttpStatus(302)));
    assert!(!is_retryable(&AttemptOutcome::Success));
}

/// Logging out with no stored session succeeds at once, and so does a
/// second logout in a row.
#[test]
fn test_logout_idempotent() {
    assert!(matches!(logout_plan(None), LogoutPlan::AlreadyLoggedOut));
    // After a successful logout the store is cleared, so the second call
    // sees no session and succeeds again.
    assert!(matches!(logout_plan(None), LogoutPlan::AlreadyLoggedOut));
    let mut stale = logged_in_session();
    stale.logged_in = false;
    assert!(matches!(logout_plan(Some(stale)), LogoutPlan::AlreadyLoggedOut));
}

/// A logged-in session proceeds to the logout POST with its own token.
#[test]
fn test_logout_proceeds_with_session() {
    match logout_plan(Some(logged_in_session())) {
        LogoutPlan::Send(s) => assert_eq!(s.csrf_token, "TOK3"),
        LogoutPlan::AlreadyLoggedOut => panic!("expected a logout request"),
    }
    let form = build_logout_form("TOK3");
    assert_eq!(form, vec![("_token".to_string(), "TOK3".to_string())]);
}

/// 2xx, 302 and 303 all count as a successful logout.
#[test]
fn test_logout_success_statuses() {
    assert!(logout_success_status(200));
    assert!(logout_success_status(204));
    assert!(logout_success_status(302));
    assert!(logout_success_status(303));
    assert!(!logout_success_status(301));
    assert!(!logout_success_status(401));
    assert!(!logout_success_status(500));
}

/// Each failing logout status maps to its own message.
#[test]
fn test_map_logout_error() {
    assert!(matches!(map_logout_error(419, ""), ApiError::LogoutFailed(m) if m == "CSRF token expired or invalid"));
    assert!(matches!(map_logout_error(422, ""), ApiError::LogoutFailed(m) if m == "Validation error (maybe missing _token)"));
    assert!(matches!(map_logout_error(429, ""), ApiError::LogoutFailed(m) if m == "Too many requests, please try later"));
    assert!(matches!(map_logout_error(503, ""), ApiError::LogoutFailed(m) if m == "Server error (HTTP 503)"));
    assert!(matches!(map_logout_error(403, "denied <html>"), ApiError::LogoutFailed(m) if m == "HTTP 403: denied"));
}

/// The session guard rejects an absent session and a stale one, and passes a
/// logged-in one through unchanged.
#[test]
fn test_gate_require() {
    match require(None) {
        Err(e) => assert!(e.is_not_authenticated()),
        Ok(_) => panic!("expected the not-authenticated error"),
    }
    let mut stale = logged_in_session();
    stale.logged_in = false;
    assert!(matches!(require(Some(stale)), Err(ApiError::NotAuthenticated)));
    let ok = require(Some(logged_in_session())).unwrap();
    assert_eq!(ok.csrf_token, "TOK3");
}

/// The session guard's headers carry the user agent and the session cookies.
#[test]
fn test_gate_headers() {
    let headers = headers_for(&logged_in_session());
    assert!(headers.iter().any(|h| h.0 == "User-Agent" && h.1.contains("Firefox")));
    assert!(headers.iter().any(|h| h.0 == "Cookie" && h.1 == "sid=ABC"));
}

/// Empty credentials are refused; a present pair passes.
#[test]
fn test_validate_credentials() {
    assert!(validate_credentials("a@b.c", "password1").is_ok());
    assert!(matches!(validate_credentials("", "password1"), Err(ApiError::LoginFailed(m)) if m == "USER_EMAIL cannot be empty"));
    assert!(matches!(validate_credentials("a@b.c", ""), Err(ApiError::LoginFailed(m)) if m == "USER_PASSWORD cannot be empty"));
}

/// The login POST statuses map as the protocol demands.
#[test]
fn test_validate_login_response() {
    assert!(validate_login_response(200, "").is_ok());
    assert!(validate_login_response(302, "").is_ok());
    assert!(matches!(validate_login_response(419, ""), Err(ApiError::LoginFailed(m)) if m == "CSRF token expired or invalid"));
    assert!(matches!(validate_login_response(422, ""), Err(ApiError::LoginFailed(m)) if m == "Validation error: email/password incorrect"));
    assert!(matches!(validate_login_response(429, ""), Err(ApiError::LoginFailed(m)) if m == "Too many requests, please try later"));
    assert!(matches!(validate_login_response(503, ""), Err(ApiError::LoginFailed(m)) if m == "Server error (HTTP 503)"));
    assert!(matches!(validate_login_response(404, "gone <p>x</p>"), Err(ApiError::LoginFailed(m)) if m == "HTTP 404: gone"));
}

/// Fetching the login page: a 200 with a token yields it, a missing
/// token is final, and a failing status reports a body snippet.
#[test]
fn test_csrf_from_response() {
    let html = r#"<input name="_token" value="TOK1">"#;
    assert_eq!(csrf_from_response(200, html).unwrap(), "TOK1");
    assert!(matches!(
        csrf_from_response(200, "<p>no token</p>"),
        Err(ApiError::CsrfTokenNotFound)
    ));
    assert!(matches!(
        csrf_from_response(500, "boom"),
        Err(ApiError::LoginFailed(m)) if m == "Failed to fetch login page (HTTP 500): boom"
    ));
}

/// The login form and base headers are assembled exactly.
#[test]
fn test_login_form_and_headers() {
    let form = build_login_form("TOK1", "a@b.c", "password1");
    assert_eq!(
        form,
        vec![
            ("_token".to_string(), "TOK1".to_string()),
            ("email".to_string(), "a@b.c".to_string()),
            ("password".to_string(), "password1".to_string()),
        ]
    );
    let headers = build_base_headers();
    assert_eq!(headers.len(), 2);
    assert_eq!(headers[0].0, "User-Agent");
    assert_eq!(headers[1].1, "application/x-www-form-urlencoded");
}

/// The session record built after a happy-path login carries the
/// harvested cookie, the token used, and the logged-in flag.
#[test]
fn test_build_cache_data_happy_path() {
    let cookies = vec![("sid".to_string(), "ABC".to_string())];
    let s = build_cache_data(&cookies, "TOK1".to_string(), "https://t.example");
    assert_eq!(s.cookies.len(), 1);
    assert_eq!(s.cookies[0].name, "sid");
    assert_eq!(s.cookies[0].value, "ABC");
    assert_eq!(s.cookies[0].domain, "https://t.example");
    assert_eq!(s.cookies[0].path, "/");
    assert_eq!(s.csrf_token, "TOK1");
    assert!(s.logged_in);
    assert!(s.timestamp > 0);
}

/// The store's freshness and token-update decisions.
#[test]
fn test_store_decisions() {
    let m = CacheManager::with_paths("./cache".to_string(), "./cache/session.json".to_string());
    assert_eq!(m.cache_file_path().as_str(), "./cache/session.json");
    assert_eq!(m.cache_dir_path().as_str(), "./cache");
    assert!(m.update_csrf_token(None, "T".to_string()).is_none());
    let updated = m.update_csrf_token(Some(logged_in_session()), "NEW".to_string()).unwrap();
    assert_eq!(updated.csrf_token, "NEW");
    assert_eq!(updated.cookies.len(), 1);
    assert!(updated.logged_in);
    assert!(m.load_fresh(None, 3600).is_none());
    // A record stamped far in the past is stale for any reasonable age.
    let mut old = logged_in_session();
    old.timestamp = 0;
    assert!(m.load_fresh(Some(old), 3600).is_none());
    let fresh = logged_in_session().with_csrf_token("T".to_string());
    assert!(m.load_fresh(Some(fresh), 3600).is_some());
}

/// Freshness against an explicit clock reading.
#[test]
fn test_is_fresh_at() {
    let s = logged_in_session();
    assert!(s.is_fresh_at(1700000000 + 10, 3600));
    assert!(!s.is_fresh_at(1700000000 + 7200, 3600));
}

/// Each HTTP status maps to its own error variant, with a tag-stripped
/// body preview where one is carried.
#[test]
fn test_from_status_mapping() {
    assert!(matches!(ApiError::from_status(401, None), ApiError::Unauthorized));
    assert!(matches!(ApiError::from_status(403, None), ApiError::Forbidden));
    assert!(matches!(ApiError::from_status(404, None), ApiError::ResourceNotFound));
    assert!(matches!(ApiError::from_status(419, None), ApiError::CsrfExpired));
    assert!(matches!(ApiError::from_status(422, Some("bad input <div>")), ApiError::ValidationError(m) if m == "bad input"));
    assert!(matches!(ApiError::from_status(429, None), ApiError::TooManyRequests));
    assert!(matches!(ApiError::from_status(503, None), ApiError::ServerError(503)));
    assert!(matches!(ApiError::from_status(418, Some("teapot")), ApiError::RequestFailed(m) if m == "HTTP 418: teapot"));
}
