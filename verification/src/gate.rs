//! The session gate: the read-only guard every authenticated request
//! builder passes before sending anything. It turns "no valid cached
//! session" into a typed error and assembles the headers that replay the
//! session. This guard takes the already-loaded record as an argument and
//! performs no I/O of any kind itself — in particular it never touches
//! the network, so requiring a session costs at most the one filesystem
//! read that loaded the record.

use vstd::prelude::*;

use crate::cookies::pairs_view;
use crate::error::{ApiError, ApiErrorView};
use crate::login::{session_cookie_map, spec_session_cookie_map, spec_user_agent, user_agent};
use crate::session::CacheData;
use crate::strutil::chars_to_string;
use vstd::string::StringExecFns;

verus! {

/// Requires a logged-in session: the loaded record is handed back when it
/// is marked logged in; an absent record, or one marked logged out, is
/// rejected with the not-authenticated error (and the caller then clears
/// the stale file). This guard never re-logs-in silently.
pub fn require(loaded: Option<CacheData>) -> (r: Result<CacheData, ApiError>)
    ensures
        match loaded {
            None => r matches Err(e) && e@ == ApiErrorView::NotAuthenticated,
            Some(d) => if d@.logged_in {
                r matches Ok(x) && x == d
            } else {
                r matches Err(e) && e@ == ApiErrorView::NotAuthenticated
            },
        },
{
    match loaded {
        None => Err(ApiError::NotAuthenticated),
        Some(d) => {
            if d.logged_in {
                Ok(d)
            } else {
                Err(ApiError::NotAuthenticated)
            }
        },
    }
}

/// The headers that replay a session on a GET: the user agent, and the
/// session's cookies when it has any.
pub open spec fn spec_gate_headers(v: crate::session::SessionView) -> Seq<(Seq<char>, Seq<char>)> {
    let base = seq![("User-Agent"@, spec_user_agent())];
    let m = spec_session_cookie_map(v.cookies);
    if m.len() == 0 {
        base
    } else {
        crate::cookies::spec_insert_cookie(
            base,
            "Cookie"@,
            crate::cookies::spec_cookie_header(m),
        )
    }
}

/// Builds the headers that replay the given session.
pub fn headers_for(session: &CacheData) -> (r: Vec<(String, String)>)
    ensures
        pairs_view(r@) == spec_gate_headers(session@),
{
    let mut headers: Vec<(String, String)> = Vec::new();
    headers.push(("User-Agent".to_owned(), user_agent().to_owned()));
    proof {
        assert(pairs_view(headers@) =~= seq![("User-Agent"@, spec_user_agent())]);
    }
    let m = session_cookie_map(session);
    let _ = crate::cookies::add_cookies_to_headers(&mut headers, &m);
    headers
}

} // verus!
