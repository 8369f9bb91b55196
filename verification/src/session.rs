//! The session data model: a single persisted record holding the cookies
//! received at login, the CSRF token in use, the logged-in flag, and the
//! time of the last update.

use vstd::prelude::*;

verus! {

/// A single HTTP cookie, stored with its attributes so that the `Cookie`
/// request header can be rebuilt later. Only the name and the value are
/// used for replay; the remaining fields are recorded for forward
/// compatibility.
pub struct Cookie {
    /// Name of the cookie.
    pub name: String,
    /// Value of the cookie.
    pub value: String,
    /// Domain for which the cookie is valid.
    pub domain: String,
    /// Path within the domain for which the cookie is valid.
    pub path: String,
    /// Whether the cookie is marked `HttpOnly`.
    pub http_only: bool,
    /// Whether the cookie is marked `Secure`.
    pub secure: bool,
}

/// The view of a cookie: every string replaced by its character sequence.
#[verifier::ext_equal]
pub ghost struct CookieView {
    pub name: Seq<char>,
    pub value: Seq<char>,
    pub domain: Seq<char>,
    pub path: Seq<char>,
    pub http_only: bool,
    pub secure: bool,
}

impl View for Cookie {
    type V = CookieView;

    open spec fn view(&self) -> CookieView {
        CookieView {
            name: self.name@,
            value: self.value@,
            domain: self.domain@,
            path: self.path@,
            http_only: self.http_only,
            secure: self.secure,
        }
    }
}

impl Clone for Cookie {
    fn clone(&self) -> (r: Self)
        ensures
            r@ == self@,
    {
        Cookie {
            name: self.name.clone(),
            value: self.value.clone(),
            domain: self.domain.clone(),
            path: self.path.clone(),
            http_only: self.http_only,
            secure: self.secure,
        }
    }
}

/// A cached session: everything needed to resume an authenticated session
/// without logging in again.
pub struct CacheData {
    /// The cookies associated with the session, in the order received.
    pub cookies: Vec<Cookie>,
    /// The CSRF token extracted at login or refreshed afterwards.
    pub csrf_token: String,
    /// Whether the session is considered logged in; set after a successful
    /// login and cleared by logout.
    pub logged_in: bool,
    /// Unix timestamp in seconds of the last update of this record.
    pub timestamp: i64,
}

/// The cookie list seen as a sequence of cookie views.
pub open spec fn cookies_view(s: Seq<Cookie>) -> Seq<CookieView> {
    s.map_values(|c: Cookie| c@)
}

/// The view of a session record.
#[verifier::ext_equal]
pub ghost struct SessionView {
    pub cookies: Seq<CookieView>,
    pub csrf_token: Seq<char>,
    pub logged_in: bool,
    pub timestamp: int,
}

impl View for CacheData {
    type V = SessionView;

    open spec fn view(&self) -> SessionView {
        SessionView {
            cookies: cookies_view(self.cookies@),
            csrf_token: self.csrf_token@,
            logged_in: self.logged_in,
            timestamp: self.timestamp as int,
        }
    }
}

impl Clone for CacheData {
    fn clone(&self) -> (r: Self)
        ensures
            r@ == self@,
    {
        let mut cookies: Vec<Cookie> = Vec::new();
        let mut i: usize = 0;
        while i < self.cookies.len()
            invariant
                i <= self.cookies@.len(),
                cookies_view(cookies@) == cookies_view(self.cookies@.subrange(0, i as int)),
            decreases self.cookies@.len() - i,
        {
            let ghost pre = cookies@;
            let c = self.cookies[i].clone();
            cookies.push(c);
            proof {
                broadcast use vstd::seq::Seq::lemma_push_map_commute;

                assert(self.cookies@.subrange(0, i + 1 as int) =~= self.cookies@.subrange(
                    0,
                    i as int,
                ).push(self.cookies@[i as int]));
                assert(cookies_view(cookies@) =~= cookies_view(
                    self.cookies@.subrange(0, i + 1 as int),
                ));
            }
            i = i + 1;
        }
        proof {
            assert(self.cookies@.subrange(0, self.cookies@.len() as int) =~= self.cookies@);
        }
        let r = CacheData {
            cookies,
            csrf_token: self.csrf_token.clone(),
            logged_in: self.logged_in,
            timestamp: self.timestamp,
        };
        r
    }
}

/// Relies on `SystemTime::now` and `duration_since`: the number of whole
/// seconds elapsed since the Unix epoch, never negative (a clock before the
/// epoch reads as zero, and a count beyond `i64` saturates).
#[verifier::external_body]
pub(crate) fn now() -> (r: i64)
    ensures
        0 <= r,
{
    match std::time::SystemTime::now().duration_since(std::time::UNIX_EPOCH) {
        Ok(d) => i64::try_from(d.as_secs()).unwrap_or(i64::MAX),
        Err(_) => 0,
    }
}

impl CacheData {
    /// Replaces the CSRF token and stamps the record with the current time;
    /// cookies and the logged-in flag are kept.
    pub fn with_csrf_token(self, new_token: String) -> (r: Self)
        ensures
            r@.cookies == self@.cookies,
            r@.csrf_token == new_token@,
            r@.logged_in == self@.logged_in,
            r@.timestamp >= 0,
    {
        let t = now();
        CacheData {
            cookies: self.cookies,
            csrf_token: new_token,
            logged_in: self.logged_in,
            timestamp: t,
        }
    }

    /// Whether the record, stamped at `self.timestamp`, is still younger
    /// than `max_age_seconds` at time `t`.
    pub open spec fn spec_fresh_at(self, t: int, max_age_seconds: int) -> bool {
        t - self@.timestamp < max_age_seconds
    }

    /// Freshness against an explicitly supplied clock reading.
    pub fn is_fresh_at(&self, t: i64, max_age_seconds: i64) -> (r: bool)
        ensures
            r == self.spec_fresh_at(t as int, max_age_seconds as int),
    {
        (t as i128) - (self.timestamp as i128) < (max_age_seconds as i128)
    }

    /// Whether the cached session is still fresh, read against the current
    /// clock. The result is the freshness test at some non-negative clock
    /// reading, which is all that can be said of a call that asks the time.
    pub fn is_fresh(&self, max_age_seconds: i64) -> (r: bool)
        ensures
            exists|t: int| 0 <= t && r == self.spec_fresh_at(t, max_age_seconds as int),
    {
        let t = now();
        let r = self.is_fresh_at(t, max_age_seconds);
        proof {
            assert(0 <= t as int && r == self.spec_fresh_at(t as int, max_age_seconds as int));
        }
        r
    }
}

} // verus!
