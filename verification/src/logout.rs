//! The logout engine's decision logic. Logout is idempotent: with no
//! stored session, or a session already marked logged out, it succeeds at
//! once without any request; otherwise a POST with the session's CSRF
//! token is prepared, and a successful answer clears the store.

use vstd::prelude::*;

use crate::cookies::pairs_view;
use crate::error::{ApiError, ApiErrorView};
use crate::login::{
    build_base_headers, session_cookie_map, spec_base_headers, spec_session_cookie_map,
};
use crate::session::{CacheData, SessionView};
use crate::strutil::{chars_to_string, spec_body_preview};
use vstd::string::StringExecFns;

verus! {

/// Whether a logout can finish without touching the network: true when no
/// session is stored, or the stored session is not logged in.
pub open spec fn spec_logout_is_noop(loaded: Option<SessionView>) -> bool {
    match loaded {
        None => true,
        Some(v) => !v.logged_in,
    }
}

/// The store's content after a logout that the server has accepted: the
/// record is cleared.
pub open spec fn spec_store_after_logout() -> Option<SessionView> {
    None
}

/// What the logout engine does first.
pub enum LogoutPlan {
    /// Nothing to log out: clear any leftover record and report success.
    AlreadyLoggedOut,
    /// Send the logout POST using this session's cookies and token.
    Send(CacheData),
}

/// The headers of the logout POST: the default authentication headers,
/// with the session's cookies attached when it has any.
pub open spec fn spec_logout_headers(v: SessionView) -> Seq<(Seq<char>, Seq<char>)> {
    let m = spec_session_cookie_map(v.cookies);
    if m.len() == 0 {
        spec_base_headers()
    } else {
        crate::cookies::spec_insert_cookie(
            spec_base_headers(),
            "Cookie"@,
            crate::cookies::spec_cookie_header(m),
        )
    }
}

/// Decides how to log out, given the loaded session. Absent or
/// logged-out sessions finish at once: logout never fails for want of
/// something to log out.
pub fn logout_plan(loaded: Option<CacheData>) -> (r: LogoutPlan)
    ensures
        match loaded {
            None => r is AlreadyLoggedOut,
            Some(d) => if !d@.logged_in {
                r is AlreadyLoggedOut
            } else {
                r matches LogoutPlan::Send(s) && s == d
            },
        },
        r is AlreadyLoggedOut <==> spec_logout_is_noop(
            match loaded {
                None => None::<SessionView>,
                Some(d) => Some(d@),
            },
        ),
{
    match loaded {
        None => LogoutPlan::AlreadyLoggedOut,
        Some(d) => {
            if !d.logged_in {
                LogoutPlan::AlreadyLoggedOut
            } else {
                LogoutPlan::Send(d)
            }
        },
    }
}

/// Builds the headers of the logout POST.
pub fn build_logout_headers(data: &CacheData) -> (r: Vec<(String, String)>)
    ensures
        pairs_view(r@) == spec_logout_headers(data@),
{
    let mut headers = build_base_headers();
    let m = session_cookie_map(data);
    let _ = crate::cookies::add_cookies_to_headers(&mut headers, &m);
    headers
}

/// Builds the logout form: the CSRF token alone.
pub fn build_logout_form(csrf_token: &str) -> (r: Vec<(String, String)>)
    ensures
        pairs_view(r@) == seq![("_token"@, csrf_token@)],
{
    let mut form: Vec<(String, String)> = Vec::new();
    form.push(("_token".to_owned(), csrf_token.to_owned()));
    proof {
        assert(pairs_view(form@) =~= seq![("_token"@, csrf_token@)]);
    }
    form
}

/// Whether a logout POST's status counts as success: any 2xx, or the
/// post-logout redirects 302 and 303.
pub fn logout_success_status(status: u16) -> (r: bool)
    ensures
        r == (200 <= status <= 299 || status == 302 || status == 303),
{
    (200 <= status && status <= 299) || status == 302 || status == 303
}

/// The message of the error raised for a failed logout with an otherwise
/// unclassified status.
pub open spec fn spec_logout_http_error(status: u16, preview: Seq<char>) -> Seq<char> {
    "HTTP "@ + crate::codec::dec_digits(status as nat) + ": "@ + preview
}

/// Maps a failing logout status to its error. The body is previewed with
/// HTML tags stripped.
pub fn map_logout_error(status: u16, body: &str) -> (r: ApiError)
    ensures
        status == 419 ==> r@ == ApiErrorView::LogoutFailed("CSRF token expired or invalid"@),
        status == 422 ==> r@ == ApiErrorView::LogoutFailed(
            "Validation error (maybe missing _token)"@,
        ),
        status == 429 ==> r@ == ApiErrorView::LogoutFailed("Too many requests, please try later"@),
        500 <= status <= 599 ==> r@ == ApiErrorView::LogoutFailed(
            "Server error (HTTP "@ + crate::codec::dec_digits(status as nat) + ")"@,
        ),
        status != 419 && status != 422 && status != 429 && !(500 <= status <= 599) ==> r@
            == ApiErrorView::LogoutFailed(
            spec_logout_http_error(status, spec_body_preview(body@)),
        ),
{
    if status == 419 {
        ApiError::LogoutFailed("CSRF token expired or invalid".to_owned())
    } else if status == 422 {
        ApiError::LogoutFailed("Validation error (maybe missing _token)".to_owned())
    } else if status == 429 {
        ApiError::LogoutFailed("Too many requests, please try later".to_owned())
    } else if 500 <= status && status <= 599 {
        let mut msg: Vec<char> = Vec::new();
        crate::strutil::push_str_chars(&mut msg, "Server error (HTTP ");
        crate::codec::push_u64_digits(&mut msg, status as u64);
        crate::strutil::push_str_chars(&mut msg, ")");
        proof {
            assert(msg@ =~= "Server error (HTTP "@ + crate::codec::dec_digits(status as nat)
                + ")"@);
        }
        ApiError::LogoutFailed(chars_to_string(&msg))
    } else {
        let mut msg: Vec<char> = Vec::new();
        crate::strutil::push_str_chars(&mut msg, "HTTP ");
        crate::codec::push_u64_digits(&mut msg, status as u64);
        crate::strutil::push_str_chars(&mut msg, ": ");
        let pv = crate::strutil::body_preview(body);
        crate::strutil::push_str_chars(&mut msg, pv.as_str());
        proof {
            assert(msg@ =~= spec_logout_http_error(status, spec_body_preview(body@)));
        }
        ApiError::LogoutFailed(chars_to_string(&msg))
    }
}

/// Logout idempotence: with no stored session logout is an immediate
/// success, and since a logout the server accepted leaves the store
/// cleared, calling logout twice in a row succeeds on the second call,
/// whatever the store held at first.
pub proof fn lemma_logout_idempotent()
    ensures
        spec_logout_is_noop(None::<SessionView>),
        spec_logout_is_noop(spec_store_after_logout()),
{
    assert(spec_store_after_logout() is None);
}

} // verus!
