//! Error types for the client: configuration errors, and the API error
//! taxonomy covering transport failures, authentication failures, CSRF
//! problems, HTTP status classes, cache and parsing errors.

use vstd::prelude::*;

use crate::strutil::{body_preview, spec_body_preview};

verus! {

/// Errors that can occur while loading or validating configuration values.
#[derive(Debug)]
pub enum EnvError {
    /// A required configuration variable is missing.
    NotFound(String),
    /// A required configuration variable is set but empty after trimming.
    Empty(String),
    /// A value is invalid (for example, the email format or password length).
    Invalid(String, String),
    /// A URL does not carry an `http` or `https` scheme.
    InvalidUrl(String, String),
    /// An endpoint path contains illegal characters (reserved).
    InvalidEndpoint(String, String),
}

/// All errors that can occur in the API client.
#[derive(Debug)]
pub enum ApiError {
    /// A general HTTP request failed (network, connection, transport).
    RequestFailed(String),
    /// The request timed out.
    RequestTimeout,
    /// Login failed; the payload gives the reason.
    LoginFailed(String),
    /// Logout failed; the payload gives the reason.
    LogoutFailed(String),
    /// An operation required a valid session, but none exists.
    NotAuthenticated,
    /// No CSRF token could be found in an HTML page.
    CsrfTokenNotFound,
    /// The CSRF token has expired or is invalid (HTTP 419).
    CsrfExpired,
    /// CSRF token validation failed for another reason.
    CsrfInvalid(String),
    /// The server rejected submitted data (HTTP 422).
    ValidationError(String),
    /// The server is rate-limiting the client (HTTP 429).
    TooManyRequests,
    /// The resource was not found (HTTP 404).
    ResourceNotFound,
    /// The request was unauthorized (HTTP 401).
    Unauthorized,
    /// The request was forbidden (HTTP 403).
    Forbidden,
    /// The server returned a 5xx status; the payload is the exact status.
    ServerError(u16),
    /// Reading or writing the session cache failed.
    CacheError(String),
    /// A configuration error, wrapping the environment error.
    EnvError(EnvError),
    /// A response could not be parsed as JSON.
    JsonError(String),
    /// A filesystem or other I/O operation failed.
    IoError(String),
    /// Extracting data from HTML failed.
    HtmlParseError(String),
    /// A catch-all for other errors.
    Other(String),
}

/// Errors of the standalone dashboard fetcher.
#[derive(Debug)]
pub enum DashboardError {
    /// An HTTP request failed.
    Request(String),
    /// The dashboard HTML could not be parsed.
    Parse(String),
    /// The session cache could not be used.
    Cache(String),
    /// A JSON payload could not be parsed.
    Json(String),
    /// No authenticated session is available.
    NotAuthenticated,
}

/// The view of an `ApiError`, with every `String` payload replaced by its
/// character sequence, so that contracts can speak of payload contents.
pub ghost enum ApiErrorView {
    RequestFailed(Seq<char>),
    RequestTimeout,
    LoginFailed(Seq<char>),
    LogoutFailed(Seq<char>),
    NotAuthenticated,
    CsrfTokenNotFound,
    CsrfExpired,
    CsrfInvalid(Seq<char>),
    ValidationError(Seq<char>),
    TooManyRequests,
    ResourceNotFound,
    Unauthorized,
    Forbidden,
    ServerError(u16),
    CacheError(Seq<char>),
    EnvError,
    JsonError(Seq<char>),
    IoError(Seq<char>),
    HtmlParseError(Seq<char>),
    Other(Seq<char>),
}

impl View for ApiError {
    type V = ApiErrorView;

    open spec fn view(&self) -> ApiErrorView {
        match self {
            ApiError::RequestFailed(s) => ApiErrorView::RequestFailed(s@),
            ApiError::RequestTimeout => ApiErrorView::RequestTimeout,
            ApiError::LoginFailed(s) => ApiErrorView::LoginFailed(s@),
            ApiError::LogoutFailed(s) => ApiErrorView::LogoutFailed(s@),
            ApiError::NotAuthenticated => ApiErrorView::NotAuthenticated,
            ApiError::CsrfTokenNotFound => ApiErrorView::CsrfTokenNotFound,
            ApiError::CsrfExpired => ApiErrorView::CsrfExpired,
            ApiError::CsrfInvalid(s) => ApiErrorView::CsrfInvalid(s@),
            ApiError::ValidationError(s) => ApiErrorView::ValidationError(s@),
            ApiError::TooManyRequests => ApiErrorView::TooManyRequests,
            ApiError::ResourceNotFound => ApiErrorView::ResourceNotFound,
            ApiError::Unauthorized => ApiErrorView::Unauthorized,
            ApiError::Forbidden => ApiErrorView::Forbidden,
            ApiError::ServerError(n) => ApiErrorView::ServerError(*n),
            ApiError::CacheError(s) => ApiErrorView::CacheError(s@),
            ApiError::EnvError(_) => ApiErrorView::EnvError,
            ApiError::JsonError(s) => ApiErrorView::JsonError(s@),
            ApiError::IoError(s) => ApiErrorView::IoError(s@),
            ApiError::HtmlParseError(s) => ApiErrorView::HtmlParseError(s@),
            ApiError::Other(s) => ApiErrorView::Other(s@),
        }
    }
}

/// Declares `reqwest::Error`, the HTTP client's opaque error type, so
/// that values of it can pass through verified signatures.
#[verifier::external_type_specification]
#[verifier::external_body]
pub struct ExReqwestError(reqwest::Error);

/// Relies on `reqwest::Error::is_timeout`; nothing is assumed of the result.
pub assume_specification[ reqwest::Error::is_timeout ](e: &reqwest::Error) -> (r: bool);

/// Relies on `reqwest::Error::is_connect`; nothing is assumed of the result.
pub assume_specification[ reqwest::Error::is_connect ](e: &reqwest::Error) -> (r: bool);

/// Relies on `reqwest::Error`'s `Display` implementation for the message
/// text of a transport failure.
#[verifier::external_body]
fn transport_detail(err: &reqwest::Error, context: &str, connect: bool) -> (r: String) {
    if connect {
        format!("Connection failed ({}): {}", context, err)
    } else {
        format!("{}: {}", context, err)
    }
}

/// The error that `ApiError::from_status` assigns to an HTTP status code,
/// given the tag-stripped preview of the response body.
pub open spec fn spec_error_for_status(status: u16, preview: Seq<char>) -> ApiErrorView {
    if status == 401 {
        ApiErrorView::Unauthorized
    } else if status == 403 {
        ApiErrorView::Forbidden
    } else if status == 404 {
        ApiErrorView::ResourceNotFound
    } else if status == 419 {
        ApiErrorView::CsrfExpired
    } else if status == 422 {
        ApiErrorView::ValidationError(preview)
    } else if status == 429 {
        ApiErrorView::TooManyRequests
    } else if 500 <= status <= 599 {
        ApiErrorView::ServerError(status)
    } else {
        ApiErrorView::RequestFailed(
            "HTTP "@ + crate::codec::dec_digits(status as nat) + ": "@ + preview,
        )
    }
}

impl ApiError {
    /// Maps an HTTP status code and optional response body to the matching
    /// error variant. For client errors that carry a message, the body is
    /// previewed: everything from the first `<` on is dropped, and the rest
    /// is trimmed.
    pub fn from_status(status: u16, body: Option<&str>) -> (r: ApiError)
        ensures
            r@ == spec_error_for_status(
                status,
                spec_body_preview(
                    match body {
                        Some(b) => b@,
                        None => Seq::<char>::empty(),
                    },
                ),
            ),
    {
        let preview = match body {
            Some(b) => body_preview(b),
            None => String::new(),
        };
        proof {
            crate::strutil::lemma_body_preview_empty();
        }
        if status == 401 {
            ApiError::Unauthorized
        } else if status == 403 {
            ApiError::Forbidden
        } else if status == 404 {
            ApiError::ResourceNotFound
        } else if status == 419 {
            ApiError::CsrfExpired
        } else if status == 422 {
            ApiError::ValidationError(preview)
        } else if status == 429 {
            ApiError::TooManyRequests
        } else if 500 <= status && status <= 599 {
            ApiError::ServerError(status)
        } else {
            let mut msg: Vec<char> = Vec::new();
            crate::strutil::push_str_chars(&mut msg, "HTTP ");
            crate::codec::push_u64_digits(&mut msg, status as u64);
            crate::strutil::push_str_chars(&mut msg, ": ");
            crate::strutil::push_str_chars(&mut msg, preview.as_str());
            ApiError::RequestFailed(crate::strutil::chars_to_string(&msg))
        }
    }

    /// Classifies a transport failure, as reported by the HTTP client, into
    /// the timeout or request-failed variants.
    pub fn from_transport(is_timeout: bool, detail: String) -> (r: ApiError)
        ensures
            is_timeout ==> r@ == ApiErrorView::RequestTimeout,
            !is_timeout ==> r@ == ApiErrorView::RequestFailed(detail@),
    {
        if is_timeout {
            ApiError::RequestTimeout
        } else {
            ApiError::RequestFailed(detail)
        }
    }

    /// Classifies an HTTP client failure, adding context about the
    /// operation that failed. Nothing further can be promised of the
    /// opaque error value: the result is the timeout error or a general
    /// request failure, which one depending on what the client reported.
    pub fn from_reqwest_error(err: reqwest::Error, context: &str) -> (r: ApiError)
        ensures
            r@ is RequestTimeout || r@ is RequestFailed,
    {
        let timeout = err.is_timeout();
        let connect = err.is_connect();
        let detail = transport_detail(&err, context, connect);
        ApiError::from_transport(timeout, detail)
    }

    /// Convenience constructor for the missing-CSRF-token error.
    pub fn csrf_not_found() -> (r: ApiError)
        ensures
            r@ == ApiErrorView::CsrfTokenNotFound,
    {
        ApiError::CsrfTokenNotFound
    }

    /// True exactly when this is the not-authenticated error.
    pub fn is_not_authenticated(&self) -> (r: bool)
        ensures
            r == (self@ == ApiErrorView::NotAuthenticated),
    {
        match self {
            ApiError::NotAuthenticated => true,
            _ => false,
        }
    }
}

} // verus!
