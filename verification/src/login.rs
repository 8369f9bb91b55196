//! The login engine's decision logic: credential checks, header and form
//! assembly, response classification, and the construction of the session
//! record that is persisted after a successful login. The network round
//! trips themselves are the caller's business; everything either side of
//! them is verified here.

use vstd::prelude::*;

use crate::cookies::{add_cookies_to_headers, pairs_view, spec_insert_cookie};
use crate::error::{ApiError, ApiErrorView};
use crate::session::{CacheData, Cookie, CookieView, cookies_view, now};
use crate::strutil::{spec_body_preview, str_to_chars, sub_chars, chars_to_string};
use crate::token::spec_extract_csrf_token;
use vstd::string::StringExecFns;

verus! {

/// The browser-identifying string sent with every request.
pub open spec fn spec_user_agent() -> Seq<char> {
    "Mozilla/5.0 (X11; Linux x86_64; rv:148.0) Gecko/20100101 Firefox/148.0"@
}

/// Returns the browser-identifying string sent with every request.
pub fn user_agent() -> (r: &'static str)
    ensures
        r@ == spec_user_agent(),
{
    "Mozilla/5.0 (X11; Linux x86_64; rv:148.0) Gecko/20100101 Firefox/148.0"
}

/// The default headers of an authentication POST: the user agent and the
/// form content type.
pub open spec fn spec_base_headers() -> Seq<(Seq<char>, Seq<char>)> {
    seq![
        ("User-Agent"@, spec_user_agent()),
        ("Content-Type"@, "application/x-www-form-urlencoded"@),
    ]
}

/// Builds the default headers of an authentication POST.
pub fn build_base_headers() -> (r: Vec<(String, String)>)
    ensures
        pairs_view(r@) == spec_base_headers(),
{
    let mut headers: Vec<(String, String)> = Vec::new();
    headers.push(("User-Agent".to_owned(), user_agent().to_owned()));
    headers.push(
        ("Content-Type".to_owned(), "application/x-www-form-urlencoded".to_owned()),
    );
    proof {
        assert(pairs_view(headers@) =~= spec_base_headers());
    }
    headers
}

/// The name/value map of a session's cookies: each cookie inserted in
/// order, a later cookie overwriting an earlier one of the same name.
pub open spec fn spec_session_cookie_map(cs: Seq<CookieView>) -> Seq<(Seq<char>, Seq<char>)>
    decreases cs.len(),
{
    if cs.len() == 0 {
        Seq::empty()
    } else {
        spec_insert_cookie(
            spec_session_cookie_map(cs.drop_last()),
            cs.last().name,
            cs.last().value,
        )
    }
}

/// Builds the name/value map of a session's cookies.
pub fn session_cookie_map(data: &CacheData) -> (r: Vec<(String, String)>)
    ensures
        pairs_view(r@) == spec_session_cookie_map(data@.cookies),
{
    let mut m: Vec<(String, String)> = Vec::new();
    let mut i: usize = 0;
    proof {
        assert(cookies_view(data.cookies@.subrange(0, 0)) =~= Seq::<CookieView>::empty());
        assert(pairs_view(m@) =~= Seq::<(Seq<char>, Seq<char>)>::empty());
    }
    while i < data.cookies.len()
        invariant
            i <= data.cookies@.len(),
            pairs_view(m@) == spec_session_cookie_map(
                cookies_view(data.cookies@.subrange(0, i as int)),
            ),
        decreases data.cookies@.len() - i,
    {
        let c = &data.cookies[i];
        m = crate::cookies::insert_cookie(m, c.name.clone(), c.value.clone());
        proof {
            broadcast use vstd::seq::Seq::lemma_push_map_commute;

            let pre = cookies_view(data.cookies@.subrange(0, i as int));
            let pre2 = cookies_view(data.cookies@.subrange(0, i + 1 as int));
            assert(data.cookies@.subrange(0, i + 1 as int) =~= data.cookies@.subrange(
                0,
                i as int,
            ).push(data.cookies@[i as int]));
            assert(pre2 =~= pre.push(data.cookies@[i as int]@));
            assert(pre2.drop_last() =~= pre);
            assert(pre2.last() == data.cookies@[i as int]@);
        }
        i = i + 1;
    }
    proof {
        assert(data.cookies@.subrange(0, data.cookies@.len() as int) =~= data.cookies@);
    }
    m
}

/// Attaches the cookies of a previously cached session, if one was loaded,
/// to the request headers; absent or cookie-less sessions leave the
/// headers untouched. Priming the login request this way is harmless and
/// never causes it to fail.
pub fn attach_cached_cookies(
    headers: &mut Vec<(String, String)>,
    loaded: &Option<CacheData>,
) -> (r: Result<(), ApiError>)
    ensures
        r is Ok,
        match loaded {
            None => final(headers)@ == old(headers)@,
            Some(d) => {
                let m = spec_session_cookie_map(d@.cookies);
                if m.len() == 0 {
                    final(headers)@ == old(headers)@
                } else {
                    pairs_view(final(headers)@) == spec_insert_cookie(
                        pairs_view(old(headers)@),
                        "Cookie"@,
                        crate::cookies::spec_cookie_header(m),
                    )
                }
            },
        },
{
    match loaded {
        None => Ok(()),
        Some(d) => {
            let m = session_cookie_map(d);
            add_cookies_to_headers(headers, &m)
        },
    }
}

/// Builds the login form: the CSRF token and the credential pair.
pub fn build_login_form(token: &str, email: &str, password: &str) -> (r: Vec<(String, String)>)
    ensures
        pairs_view(r@) == seq![
            ("_token"@, token@),
            ("email"@, email@),
            ("password"@, password@),
        ],
{
    let mut form: Vec<(String, String)> = Vec::new();
    form.push(("_token".to_owned(), token.to_owned()));
    form.push(("email".to_owned(), email.to_owned()));
    form.push(("password".to_owned(), password.to_owned()));
    proof {
        assert(pairs_view(form@) =~= seq![
            ("_token"@, token@),
            ("email"@, email@),
            ("password"@, password@),
        ]);
    }
    form
}

/// Checks that the credentials are present. An email without `@` is
/// tolerated here (validation proper happens when the configuration is
/// loaded); empty fields are refused.
pub fn validate_credentials(email: &str, password: &str) -> (r: Result<(), ApiError>)
    ensures
        r is Ok <==> email@.len() > 0 && password@.len() > 0,
        email@.len() == 0 ==> (r matches Err(e) && e@ == ApiErrorView::LoginFailed(
            "USER_EMAIL cannot be empty"@,
        )),
        email@.len() > 0 && password@.len() == 0 ==> (r matches Err(e) && e@
            == ApiErrorView::LoginFailed("USER_PASSWORD cannot be empty"@)),
{
    if email.unicode_len() == 0 {
        return Err(ApiError::LoginFailed("USER_EMAIL cannot be empty".to_owned()));
    }
    if password.unicode_len() == 0 {
        return Err(ApiError::LoginFailed("USER_PASSWORD cannot be empty".to_owned()));
    }
    Ok(())
}

/// The first two hundred characters of a response body, as shown in the
/// error for a failed login-page fetch.
pub open spec fn spec_snippet(s: Seq<char>) -> Seq<char> {
    if s.len() <= 200 {
        s
    } else {
        s.subrange(0, 200)
    }
}

fn snippet(body: &str) -> (r: Vec<char>)
    ensures
        r@ == spec_snippet(body@),
{
    let v = str_to_chars(body);
    if v.len() <= 200 {
        v
    } else {
        let r = sub_chars(&v, 0, 200);
        r
    }
}

/// The message of the error raised when the login page cannot be fetched.
pub open spec fn spec_fetch_page_error(status: u16, body: Seq<char>) -> Seq<char> {
    "Failed to fetch login page (HTTP "@ + crate::codec::dec_digits(status as nat) + "): "@
        + spec_snippet(body)
}

/// Decides what a login-page fetch yielded: on a successful status the
/// CSRF token is extracted from the HTML; a missing token is final (the
/// page's shape changed — retrying cannot help); any other status fails
/// with a preview of the body.
pub fn csrf_from_response(status: u16, body: &str) -> (r: Result<String, ApiError>)
    ensures
        200 <= status <= 299 ==> match spec_extract_csrf_token(body@) {
            Some(t) => r matches Ok(tok) && tok@ == t,
            None => r matches Err(e) && e@ is CsrfTokenNotFound,
        },
        !(200 <= status <= 299) ==> (r matches Err(e) && e@ == ApiErrorView::LoginFailed(
            spec_fetch_page_error(status, body@),
        )),
{
    if 200 <= status && status <= 299 {
        match crate::token::extract_csrf_token(body) {
            Ok(tok) => Ok(tok),
            Err(e) => Err(e),
        }
    } else {
        let mut msg: Vec<char> = Vec::new();
        crate::strutil::push_str_chars(&mut msg, "Failed to fetch login page (HTTP ");
        crate::codec::push_u64_digits(&mut msg, status as u64);
        crate::strutil::push_str_chars(&mut msg, "): ");
        let sn = snippet(body);
        let mut k: usize = 0;
        let ghost before = msg@;
        while k < sn.len()
            invariant
                k <= sn@.len(),
                msg@ == before + sn@.subrange(0, k as int),
            decreases sn@.len() - k,
        {
            let c = sn[k];
            msg.push(c);
            proof {
                assert(msg@ =~= before + sn@.subrange(0, k + 1 as int));
            }
            k = k + 1;
        }
        proof {
            assert(sn@.subrange(0, sn@.len() as int) =~= sn@);
            assert(msg@ =~= spec_fetch_page_error(status, body@));
        }
        Err(ApiError::LoginFailed(chars_to_string(&msg)))
    }
}

/// The message of the error raised for a failed login POST with an
/// otherwise unclassified status.
pub open spec fn spec_login_http_error(status: u16, body: Seq<char>) -> Seq<char> {
    "HTTP "@ + crate::codec::dec_digits(status as nat) + ": "@ + spec_body_preview(body)
}

/// The message of the error raised for a server error during login.
pub open spec fn spec_login_server_error(status: u16) -> Seq<char> {
    "Server error (HTTP "@ + crate::codec::dec_digits(status as nat) + ")"@
}

/// Classifies the status of the login POST. A 2xx or 3xx answer is a
/// successful login; the known failure statuses carry their own messages;
/// anything else fails with the status and a tag-stripped preview of the
/// body.
pub fn validate_login_response(status: u16, body: &str) -> (r: Result<(), ApiError>)
    ensures
        r is Ok <==> 200 <= status <= 399,
        status == 419 ==> (r matches Err(e) && e@ == ApiErrorView::LoginFailed(
            "CSRF token expired or invalid"@,
        )),
        status == 422 ==> (r matches Err(e) && e@ == ApiErrorView::LoginFailed(
            "Validation error: email/password incorrect"@,
        )),
        status == 429 ==> (r matches Err(e) && e@ == ApiErrorView::LoginFailed(
            "Too many requests, please try later"@,
        )),
        500 <= status <= 599 ==> (r matches Err(e) && e@ == ApiErrorView::LoginFailed(
            spec_login_server_error(status),
        )),
        !(200 <= status <= 399) && status != 419 && status != 422 && status != 429 && !(500
            <= status <= 599) ==> (r matches Err(e) && e@ == ApiErrorView::LoginFailed(
            spec_login_http_error(status, body@),
        )),
{
    if 200 <= status && status <= 399 {
        Ok(())
    } else if status == 419 {
        Err(ApiError::LoginFailed("CSRF token expired or invalid".to_owned()))
    } else if status == 422 {
        Err(ApiError::LoginFailed("Validation error: email/password incorrect".to_owned()))
    } else if status == 429 {
        Err(ApiError::LoginFailed("Too many requests, please try later".to_owned()))
    } else if 500 <= status && status <= 599 {
        let mut msg: Vec<char> = Vec::new();
        crate::strutil::push_str_chars(&mut msg, "Server error (HTTP ");
        crate::codec::push_u64_digits(&mut msg, status as u64);
        crate::strutil::push_str_chars(&mut msg, ")");
        proof {
            assert(msg@ =~= spec_login_server_error(status));
        }
        Err(ApiError::LoginFailed(chars_to_string(&msg)))
    } else {
        let mut msg: Vec<char> = Vec::new();
        crate::strutil::push_str_chars(&mut msg, "HTTP ");
        crate::codec::push_u64_digits(&mut msg, status as u64);
        crate::strutil::push_str_chars(&mut msg, ": ");
        let pv = crate::strutil::body_preview(body);
        crate::strutil::push_str_chars(&mut msg, pv.as_str());
        proof {
            assert(msg@ =~= spec_login_http_error(status, body@));
        }
        Err(ApiError::LoginFailed(chars_to_string(&msg)))
    }
}

/// What the cookies of a freshly built session look like: one cookie per
/// harvested pair, with the base URL as domain, the root path, and the
/// default attribute flags.
pub open spec fn spec_cookies_from_pairs(
    ps: Seq<(Seq<char>, Seq<char>)>,
    domain: Seq<char>,
) -> Seq<CookieView> {
    ps.map_values(
        |p: (Seq<char>, Seq<char>)|
            (CookieView {
                name: p.0,
                value: p.1,
                domain: domain,
                path: seq!['/'],
                http_only: true,
                secure: false,
            }),
    )
}

/// Assembles the session record persisted after a successful login: the
/// harvested cookies, the token that was just used, the logged-in flag,
/// and the current time.
pub fn build_cache_data(
    cookies: &Vec<(String, String)>,
    csrf_token: String,
    base_url: &str,
) -> (r: CacheData)
    ensures
        r@.cookies == spec_cookies_from_pairs(pairs_view(cookies@), base_url@),
        r@.csrf_token == csrf_token@,
        r@.logged_in == true,
        r@.timestamp >= 0,
{
    let mut cs: Vec<Cookie> = Vec::new();
    let mut i: usize = 0;
    while i < cookies.len()
        invariant
            i <= cookies@.len(),
            cookies_view(cs@) == spec_cookies_from_pairs(
                pairs_view(cookies@.subrange(0, i as int)),
                base_url@,
            ),
        decreases cookies@.len() - i,
    {
        let e = &cookies[i];
        let c = Cookie {
            name: e.0.clone(),
            value: e.1.clone(),
            domain: base_url.to_owned(),
            path: "/".to_owned(),
            http_only: true,
            secure: false,
        };
        proof {
            reveal_strlit("/");
            assert("/"@ =~= seq!['/']);
        }
        cs.push(c);
        proof {
            broadcast use vstd::seq::Seq::lemma_push_map_commute;

            assert(cookies@.subrange(0, i + 1 as int) =~= cookies@.subrange(0, i as int).push(
                cookies@[i as int],
            ));
            assert(cookies_view(cs@) =~= spec_cookies_from_pairs(
                pairs_view(cookies@.subrange(0, i + 1 as int)),
                base_url@,
            ));
        }
        i = i + 1;
    }
    proof {
        assert(cookies@.subrange(0, cookies@.len() as int) =~= cookies@);
    }
    let t = now();
    CacheData { cookies: cs, csrf_token, logged_in: true, timestamp: t }
}

} // verus!
