//! Cookie handling: parsing `Set-Cookie` header values into a name/value
//! map, serializing the map into a single `Cookie` request header, and
//! attaching that header to a request's header list.
//!
//! The cookie map is an ordered list of `(name, value)` pairs in which names
//! are unique; inserting an existing name overwrites its value in place.

use vstd::prelude::*;

use crate::error::ApiError;
use vstd::string::StringExecFns;
use crate::strutil::{
    find_char, is_ws_char, lemma_spec_find, lemma_spec_find_at, lemma_spec_find_none, spec_find,
    spec_trim, str_to_chars, sub_chars, trim_chars, chars_to_string, lemma_trim_pad,
};

verus! {

/// The view of a list of `(String, String)` pairs as a sequence of
/// character-sequence pairs.
pub open spec fn pairs_view(m: Seq<(String, String)>) -> Seq<(Seq<char>, Seq<char>)> {
    m.map_values(|p: (String, String)| (p.0@, p.1@))
}

/// The view of a list of `String`s as a sequence of character sequences.
pub open spec fn strs_view(s: Seq<String>) -> Seq<Seq<char>> {
    s.map_values(|x: String| x@)
}

/// What parsing a single `Set-Cookie` header value yields: the first
/// name/value pair, with attributes after the first `;` ignored. The name is
/// the trimmed text before the first `=`; the value is the trimmed text
/// between that `=` and the first following `;` (or the end). A missing `=`
/// or an empty name yields nothing.
pub open spec fn spec_parse_set_cookie(s: Seq<char>) -> Option<(Seq<char>, Seq<char>)> {
    match spec_find(s, '=') {
        None => None,
        Some(i) => {
            let name = spec_trim(s.subrange(0, i));
            if name.len() == 0 {
                None
            } else {
                let rest = s.subrange(i + 1, s.len() as int);
                let vend = match spec_find(rest, ';') {
                    Some(j) => j,
                    None => rest.len() as int,
                };
                Some((name, spec_trim(rest.subrange(0, vend))))
            }
        },
    }
}

/// Whether a cookie map already holds the given name.
pub open spec fn has_name(m: Seq<(Seq<char>, Seq<char>)>, n: Seq<char>) -> bool {
    exists|k: int| 0 <= k < m.len() && m[k].0 == n
}

/// Inserting into the cookie map: the first entry with the same name is
/// replaced in place; a new name is appended at the end.
pub open spec fn spec_insert_cookie(
    m: Seq<(Seq<char>, Seq<char>)>,
    n: Seq<char>,
    v: Seq<char>,
) -> Seq<(Seq<char>, Seq<char>)>
    decreases m.len(),
{
    if m.len() == 0 {
        seq![(n, v)]
    } else if m[0].0 == n {
        seq![(n, v)] + m.drop_first()
    } else {
        seq![m[0]] + spec_insert_cookie(m.drop_first(), n, v)
    }
}

/// The cookie map extracted from a list of `Set-Cookie` header values:
/// each value is parsed and inserted in order, so a later cookie with the
/// same name overwrites an earlier one.
pub open spec fn spec_extract_cookies(headers: Seq<Seq<char>>) -> Seq<(Seq<char>, Seq<char>)>
    decreases headers.len(),
{
    if headers.len() == 0 {
        Seq::empty()
    } else {
        let m = spec_extract_cookies(headers.drop_last());
        match spec_parse_set_cookie(headers.last()) {
            Some(p) => spec_insert_cookie(m, p.0, p.1),
            None => m,
        }
    }
}

proof fn lemma_insert_not_found(m: Seq<(Seq<char>, Seq<char>)>, n: Seq<char>, v: Seq<char>)
    requires
        !has_name(m, n),
    ensures
        spec_insert_cookie(m, n, v) == m + seq![(n, v)],
    decreases m.len(),
{
    if m.len() == 0 {
        assert(spec_insert_cookie(m, n, v) =~= m + seq![(n, v)]);
    } else {
        assert(m[0].0 != n);
        assert(!has_name(m.drop_first(), n)) by {
            if has_name(m.drop_first(), n) {
                let k = choose|k: int| 0 <= k < m.drop_first().len() && m.drop_first()[k].0 == n;
                assert(m[k + 1].0 == n);
            }
        }
        lemma_insert_not_found(m.drop_first(), n, v);
        assert(seq![m[0]] + (m.drop_first() + seq![(n, v)]) =~= m + seq![(n, v)]);
    }
}

proof fn lemma_insert_app(
    a: Seq<(Seq<char>, Seq<char>)>,
    b: Seq<(Seq<char>, Seq<char>)>,
    n: Seq<char>,
    v: Seq<char>,
)
    requires
        has_name(a, n),
    ensures
        spec_insert_cookie(a + b, n, v) == spec_insert_cookie(a, n, v) + b,
    decreases a.len(),
{
    if a.len() > 0 {
        let w = a + b;
        assert(w[0] == a[0]);
        if a[0].0 == n {
            assert(w.drop_first() =~= a.drop_first() + b);
            assert(seq![(n, v)] + (a.drop_first() + b) =~= (seq![(n, v)] + a.drop_first()) + b);
        } else {
            assert(has_name(a.drop_first(), n)) by {
                let k = choose|k: int| 0 <= k < a.len() && a[k].0 == n;
                assert(k >= 1);
                assert(a.drop_first()[k - 1].0 == n);
            }
            assert(w.drop_first() =~= a.drop_first() + b);
            lemma_insert_app(a.drop_first(), b, n, v);
            assert(seq![a[0]] + (spec_insert_cookie(a.drop_first(), n, v) + b) =~= (seq![a[0]]
                + spec_insert_cookie(a.drop_first(), n, v)) + b);
        }
    }
}

proof fn lemma_insert_found_at(
    a: Seq<(Seq<char>, Seq<char>)>,
    e: (Seq<char>, Seq<char>),
    n: Seq<char>,
    v: Seq<char>,
)
    requires
        !has_name(a, n),
        e.0 == n,
    ensures
        spec_insert_cookie(a + seq![e], n, v) == a + seq![(n, v)],
    decreases a.len(),
{
    if a.len() == 0 {
        assert((a + seq![e])[0] == e);
        assert(spec_insert_cookie(a + seq![e], n, v) =~= a + seq![(n, v)]) by {
            assert((a + seq![e]).len() == 1);
            assert((a + seq![e]).drop_first() =~= Seq::<(Seq<char>, Seq<char>)>::empty());
        }
    } else {
        let w = a + seq![e];
        assert(w[0] == a[0]);
        assert(a[0].0 != n);
        assert(!has_name(a.drop_first(), n)) by {
            if has_name(a.drop_first(), n) {
                let k = choose|k: int| 0 <= k < a.drop_first().len() && a.drop_first()[k].0 == n;
                assert(a[k + 1].0 == n);
            }
        }
        assert(w.drop_first() =~= a.drop_first() + seq![e]);
        lemma_insert_found_at(a.drop_first(), e, n, v);
        assert(seq![a[0]] + (a.drop_first() + seq![(n, v)]) =~= a + seq![(n, v)]);
    }
}

/// Parses a single `Set-Cookie` header value into a cookie name and value,
/// ignoring attributes such as `Path` or `HttpOnly` after the first `;`.
pub fn parse_set_cookie(cookie_str: &str) -> (r: Option<(String, String)>)
    ensures
        match r {
            Some(p) => spec_parse_set_cookie(cookie_str@) == Some((p.0@, p.1@)),
            None => spec_parse_set_cookie(cookie_str@) is None,
        },
{
    let v = str_to_chars(cookie_str);
    proof {
        lemma_spec_find(v@, '=');
    }
    match find_char(&v, '=') {
        None => None,
        Some(i) => {
            let name_part = sub_chars(&v, 0, i);
            let name = trim_chars(&name_part);
            if name.len() == 0 {
                return None;
            }
            let rest = sub_chars(&v, i + 1, v.len());
            proof {
                lemma_spec_find(rest@, ';');
            }
            let vend = match find_char(&rest, ';') {
                Some(j) => j,
                None => rest.len(),
            };
            let value_part = sub_chars(&rest, 0, vend);
            let value = trim_chars(&value_part);
            Some((chars_to_string(&name), chars_to_string(&value)))
        },
    }
}

/// Inserts a cookie into the map, overwriting the value of an existing
/// entry with the same name, or appending a new entry.
pub fn insert_cookie(m: Vec<(String, String)>, n: String, v: String) -> (r: Vec<(String, String)>)
    ensures
        pairs_view(r@) == spec_insert_cookie(pairs_view(m@), n@, v@),
{
    let ghost goal = spec_insert_cookie(pairs_view(m@), n@, v@);
    let mut out: Vec<(String, String)> = Vec::new();
    let mut found = false;
    let mut i: usize = 0;
    while i < m.len()
        invariant
            i <= m@.len(),
            found ==> pairs_view(out@) == spec_insert_cookie(
                pairs_view(m@.subrange(0, i as int)),
                n@,
                v@,
            ) && has_name(pairs_view(m@.subrange(0, i as int)), n@),
            !found ==> pairs_view(out@) == pairs_view(m@.subrange(0, i as int)) && !has_name(
                pairs_view(m@.subrange(0, i as int)),
                n@,
            ),
        decreases m@.len() - i,
    {
        let ghost prefix = pairs_view(m@.subrange(0, i as int));
        let ghost prefix2 = pairs_view(m@.subrange(0, i + 1 as int));
        let ghost ev = (m@[i as int].0@, m@[i as int].1@);
        proof {
            assert(prefix2 =~= prefix + seq![ev]);
        }
        let e = &m[i];
        if !found && e.0 == n {
            out.push((n.clone(), v.clone()));
            found = true;
            proof {
                lemma_insert_found_at(prefix, ev, n@, v@);
                assert(pairs_view(out@) =~= prefix + seq![(n@, v@)]);
                assert(has_name(prefix2, n@)) by {
                    assert(prefix2[i as int].0 == n@);
                }
            }
        } else {
            let copy = (e.0.clone(), e.1.clone());
            out.push(copy);
            proof {
                if found {
                    lemma_insert_app(prefix, seq![ev], n@, v@);
                    assert(pairs_view(out@) =~= spec_insert_cookie(prefix, n@, v@) + seq![ev]);
                    let k = choose|k: int| 0 <= k < prefix.len() && prefix[k].0 == n@;
                    assert(prefix2[k].0 == n@);
                } else {
                    assert(pairs_view(out@) =~= prefix2);
                    assert(!has_name(prefix2, n@)) by {
                        if has_name(prefix2, n@) {
                            let k = choose|k: int|
                                0 <= k < prefix2.len() && prefix2[k].0 == n@;
                            if k < i as int {
                                assert(prefix[k].0 == n@);
                            } else {
                                assert(prefix2[k] == ev);
                            }
                        }
                    }
                }
            }
        }
        i = i + 1;
    }
    proof {
        assert(m@.subrange(0, m@.len() as int) =~= m@);
    }
    if !found {
        proof {
            lemma_insert_not_found(pairs_view(m@), n@, v@);
        }
        out.push((n, v));
        proof {
            assert(pairs_view(out@) =~= pairs_view(m@) + seq![(n@, v@)]);
        }
    }
    out
}

/// Extracts all cookies from a list of `Set-Cookie` header values. Later
/// cookies with the same name overwrite earlier ones.
pub fn extract_cookies(headers: &Vec<String>) -> (r: Vec<(String, String)>)
    ensures
        pairs_view(r@) == spec_extract_cookies(strs_view(headers@)),
{
    let mut out: Vec<(String, String)> = Vec::new();
    let mut i: usize = 0;
    while i < headers.len()
        invariant
            i <= headers@.len(),
            pairs_view(out@) == spec_extract_cookies(strs_view(headers@.subrange(0, i as int))),
        decreases headers@.len() - i,
    {
        let ghost hs = strs_view(headers@.subrange(0, i + 1 as int));
        proof {
            assert(hs.drop_last() =~= strs_view(headers@.subrange(0, i as int)));
            assert(hs.last() == headers@[i as int]@);
        }
        match parse_set_cookie(headers[i].as_str()) {
            Some(p) => {
                out = insert_cookie(out, p.0, p.1);
            },
            None => {},
        }
        i = i + 1;
    }
    proof {
        assert(headers@.subrange(0, headers@.len() as int) =~= headers@);
    }
    out
}

/// The `Cookie` request-header value for a cookie map: the `name=value`
/// pairs joined with `"; "`, in map order.
pub open spec fn spec_cookie_header(m: Seq<(Seq<char>, Seq<char>)>) -> Seq<char>
    decreases m.len(),
{
    if m.len() == 0 {
        Seq::empty()
    } else if m.len() == 1 {
        m[0].0 + seq!['='] + m[0].1
    } else {
        spec_cookie_header(m.drop_last()) + seq![';', ' '] + m.last().0 + seq!['='] + m.last().1
    }
}

/// Builds the `Cookie` header value string from a cookie map.
pub fn build_cookie_header(cookies: &Vec<(String, String)>) -> (r: String)
    ensures
        r@ == spec_cookie_header(pairs_view(cookies@)),
{
    let mut out: Vec<char> = Vec::new();
    let mut i: usize = 0;
    while i < cookies.len()
        invariant
            i <= cookies@.len(),
            out@ == spec_cookie_header(pairs_view(cookies@.subrange(0, i as int))),
        decreases cookies@.len() - i,
    {
        let ghost prefix2 = pairs_view(cookies@.subrange(0, i + 1 as int));
        proof {
            assert(prefix2.drop_last() =~= pairs_view(cookies@.subrange(0, i as int)));
        }
        if i > 0 {
            out.push(';');
            out.push(' ');
        }
        let e = &cookies[i];
        crate::strutil::push_str_chars(&mut out, e.0.as_str());
        out.push('=');
        crate::strutil::push_str_chars(&mut out, e.1.as_str());
        proof {
            if i == 0 {
                assert(out@ =~= prefix2[0].0 + seq!['='] + prefix2[0].1);
            } else {
                assert(out@ =~= spec_cookie_header(prefix2.drop_last()) + seq![';', ' ']
                    + prefix2.last().0 + seq!['='] + prefix2.last().1);
            }
        }
        i = i + 1;
    }
    proof {
        assert(cookies@.subrange(0, cookies@.len() as int) =~= cookies@);
    }
    chars_to_string(&out)
}

/// Adds the cookies to a request header list under the `Cookie` name,
/// overwriting any existing `Cookie` header. An empty cookie map leaves the
/// headers untouched.
pub fn add_cookies_to_headers(
    headers: &mut Vec<(String, String)>,
    cookies: &Vec<(String, String)>,
) -> (r: Result<(), ApiError>)
    ensures
        r is Ok,
        cookies@.len() == 0 ==> final(headers)@ == old(headers)@,
        cookies@.len() > 0 ==> pairs_view(final(headers)@) == spec_insert_cookie(
            pairs_view(old(headers)@),
            "Cookie"@,
            spec_cookie_header(pairs_view(cookies@)),
        ),
{
    if cookies.len() > 0 {
        let value = build_cookie_header(cookies);
        let name: String = String::from_str("Cookie");
        let mut taken: Vec<(String, String)> = Vec::new();
        core::mem::swap(headers, &mut taken);
        let updated = insert_cookie(taken, name, value);
        *headers = updated;
    }
    Ok(())
}

/// What `parse_set_cookie` makes of a well-shaped header: whitespace around
/// the name and around the value is ignored, attributes after `;` are
/// dropped, and the trimmed name and value come back. `a`, `b`, `c`, `d`
/// are arbitrary whitespace paddings.
pub proof fn lemma_cookie_whitespace(
    a: Seq<char>,
    n: Seq<char>,
    b: Seq<char>,
    c: Seq<char>,
    v: Seq<char>,
    d: Seq<char>,
)
    requires
        forall|k: int| 0 <= k < a.len() ==> is_ws_char(a[k]),
        forall|k: int| 0 <= k < b.len() ==> is_ws_char(b[k]),
        forall|k: int| 0 <= k < c.len() ==> is_ws_char(c[k]),
        forall|k: int| 0 <= k < d.len() ==> is_ws_char(d[k]),
        forall|k: int| 0 <= k < n.len() ==> n[k] != '=',
        forall|k: int| 0 <= k < v.len() ==> v[k] != ';',
        spec_trim(n).len() > 0,
    ensures
        spec_parse_set_cookie(a + n + b + seq!['='] + c + v + d) == Some(
            (spec_trim(n), spec_trim(v)),
        ),
{
    let before = a + n + b;
    let after = c + v + d;
    let w = a + n + b + seq!['='] + c + v + d;
    let eq = before.len() as int;
    assert(w[eq] == '=');
    assert(forall|k: int| 0 <= k < eq ==> w[k] != '=') by {
        assert(forall|k: int| 0 <= k < a.len() ==> w[k] == a[k] && is_ws_char(a[k]));
        assert(forall|k: int|
            a.len() <= k < a.len() + n.len() ==> w[k] == n[k - a.len()]);
        assert(forall|k: int|
            a.len() + n.len() <= k < eq ==> w[k] == b[k - a.len() - n.len()] && is_ws_char(
                b[k - a.len() - n.len()],
            ));
    }
    lemma_spec_find_at(w, '=', eq);
    assert(w.subrange(0, eq) =~= before);
    lemma_trim_pad(a, n, b);
    let rest = w.subrange(eq + 1, w.len() as int);
    assert(rest =~= after);
    assert(forall|k: int| 0 <= k < after.len() ==> after[k] != ';') by {
        assert(forall|k: int| 0 <= k < c.len() ==> after[k] == c[k] && is_ws_char(c[k]));
        assert(forall|k: int|
            c.len() <= k < c.len() + v.len() ==> after[k] == v[k - c.len()]);
        assert(forall|k: int|
            c.len() + v.len() <= k < after.len() ==> after[k] == d[k - c.len() - v.len()]
                && is_ws_char(d[k - c.len() - v.len()]));
    }
    lemma_spec_find_none(rest, ';');
    assert(rest.subrange(0, rest.len() as int) =~= after);
    lemma_trim_pad(c, v, d);
}

} // verus!
