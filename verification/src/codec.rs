//! The on-disk format of the session record: a pretty-printed JSON document
//! with the fields `cookies`, `csrf_token`, `logged_in` and `timestamp`,
//! rendered and parsed by verified code. The parser accepts the fields of
//! an object in any order; the renderer writes them in the order above.

use vstd::prelude::*;

use crate::error::ApiError;
use crate::session::{CacheData, Cookie, CookieView, SessionView, cookies_view};
use crate::strutil::{chars_to_string, is_ws_char, str_to_chars};
use vstd::string::StringExecFns;

verus! {

// ---------------------------------------------------------------------------
// Field names, escapes, digits
// ---------------------------------------------------------------------------

pub open spec fn k_cookies() -> Seq<char> {
    seq!['c', 'o', 'o', 'k', 'i', 'e', 's']
}

pub open spec fn k_csrf_token() -> Seq<char> {
    seq!['c', 's', 'r', 'f', '_', 't', 'o', 'k', 'e', 'n']
}

pub open spec fn k_logged_in() -> Seq<char> {
    seq!['l', 'o', 'g', 'g', 'e', 'd', '_', 'i', 'n']
}

pub open spec fn k_timestamp() -> Seq<char> {
    seq!['t', 'i', 'm', 'e', 's', 't', 'a', 'm', 'p']
}

pub open spec fn k_name() -> Seq<char> {
    seq!['n', 'a', 'm', 'e']
}

pub open spec fn k_value() -> Seq<char> {
    seq!['v', 'a', 'l', 'u', 'e']
}

pub open spec fn k_domain() -> Seq<char> {
    seq!['d', 'o', 'm', 'a', 'i', 'n']
}

pub open spec fn k_path() -> Seq<char> {
    seq!['p', 'a', 't', 'h']
}

pub open spec fn k_http_only() -> Seq<char> {
    seq!['h', 't', 't', 'p', '_', 'o', 'n', 'l', 'y']
}

pub open spec fn k_secure() -> Seq<char> {
    seq!['s', 'e', 'c', 'u', 'r', 'e']
}

pub open spec fn lit_true() -> Seq<char> {
    seq!['t', 'r', 'u', 'e']
}

pub open spec fn lit_false() -> Seq<char> {
    seq!['f', 'a', 'l', 's', 'e']
}

/// How one character is written inside a JSON string: the quote, the
/// backslash and the three common control characters are escaped, every
/// other character stands for itself.
pub open spec fn escape_char(c: char) -> Seq<char> {
    if c == '"' {
        seq!['\\', '"']
    } else if c == '\\' {
        seq!['\\', '\\']
    } else if c == '\n' {
        seq!['\\', 'n']
    } else if c == '\r' {
        seq!['\\', 'r']
    } else if c == '\t' {
        seq!['\\', 't']
    } else {
        seq![c]
    }
}

/// The body of a JSON string: each character escaped in turn.
pub open spec fn escape(s: Seq<char>) -> Seq<char>
    decreases s.len(),
{
    if s.len() == 0 {
        Seq::empty()
    } else {
        escape_char(s[0]) + escape(s.drop_first())
    }
}

/// What a backslash escape maps back to, if it is one the renderer writes.
pub open spec fn unescape_char(c: char) -> Option<char> {
    if c == '"' {
        Some('"')
    } else if c == '\\' {
        Some('\\')
    } else if c == 'n' {
        Some('\n')
    } else if c == 'r' {
        Some('\r')
    } else if c == 't' {
        Some('\t')
    } else {
        None
    }
}

pub open spec fn is_digit(c: char) -> bool {
    c == '0' || c == '1' || c == '2' || c == '3' || c == '4' || c == '5' || c == '6' || c == '7'
        || c == '8' || c == '9'
}

/// The numeric value of a digit character (unspecified off the digits).
pub open spec fn digit_of(c: char) -> nat {
    if c == '1' {
        1
    } else if c == '2' {
        2
    } else if c == '3' {
        3
    } else if c == '4' {
        4
    } else if c == '5' {
        5
    } else if c == '6' {
        6
    } else if c == '7' {
        7
    } else if c == '8' {
        8
    } else if c == '9' {
        9
    } else {
        0
    }
}

/// The digit character for a value below ten.
pub open spec fn char_of_digit(d: nat) -> char {
    if d == 1 {
        '1'
    } else if d == 2 {
        '2'
    } else if d == 3 {
        '3'
    } else if d == 4 {
        '4'
    } else if d == 5 {
        '5'
    } else if d == 6 {
        '6'
    } else if d == 7 {
        '7'
    } else if d == 8 {
        '8'
    } else if d == 9 {
        '9'
    } else {
        '0'
    }
}

/// The decimal digits of `n`, most significant first, without leading
/// zeros (except for zero itself).
pub open spec fn dec_digits(n: nat) -> Seq<char>
    decreases n,
{
    if n < 10 {
        seq![char_of_digit(n)]
    } else {
        dec_digits(n / 10) + seq![char_of_digit(n % 10)]
    }
}

/// The decimal rendering of a signed value.
pub open spec fn render_int(t: int) -> Seq<char> {
    if t < 0 {
        seq!['-'] + dec_digits((-t) as nat)
    } else {
        dec_digits(t as nat)
    }
}

// ---------------------------------------------------------------------------
// Rendering
// ---------------------------------------------------------------------------

pub open spec fn render_string(s: Seq<char>) -> Seq<char> {
    seq!['"'] + escape(s) + seq!['"']
}

pub open spec fn render_bool(b: bool) -> Seq<char> {
    if b {
        lit_true()
    } else {
        lit_false()
    }
}

/// One `"key": value` pair with a string value.
pub open spec fn field_str(key: Seq<char>, val: Seq<char>) -> Seq<char> {
    render_string(key) + seq![':', ' '] + render_string(val)
}

/// One `"key": value` pair with a boolean value.
pub open spec fn field_bool(key: Seq<char>, b: bool) -> Seq<char> {
    render_string(key) + seq![':', ' '] + render_bool(b)
}

/// One cookie as a one-line JSON object, fields in a fixed order.
pub open spec fn render_cookie(c: CookieView) -> Seq<char> {
    seq!['{'] + field_str(k_name(), c.name) + seq![',', ' '] + field_str(k_value(), c.value)
        + seq![',', ' '] + field_str(k_domain(), c.domain) + seq![',', ' '] + field_str(
        k_path(),
        c.path,
    ) + seq![',', ' '] + field_bool(k_http_only(), c.http_only) + seq![',', ' '] + field_bool(
        k_secure(),
        c.secure,
    ) + seq!['}']
}

/// The items of the cookie array, joined with `", "`.
pub open spec fn render_cookie_items(cs: Seq<CookieView>) -> Seq<char>
    decreases cs.len(),
{
    if cs.len() == 0 {
        Seq::empty()
    } else if cs.len() == 1 {
        render_cookie(cs[0])
    } else {
        render_cookie_items(cs.drop_last()) + seq![',', ' '] + render_cookie(cs.last())
    }
}

/// The `"cookies"` field of the session object: its key, a colon, and the
/// bracketed cookie array.
pub open spec fn cookies_field(cs: Seq<CookieView>) -> Seq<char> {
    render_string(k_cookies()) + seq![':', ' ', '['] + render_cookie_items(cs) + seq![']']
}

/// The `"timestamp"` field of the session object.
pub open spec fn timestamp_field(t: int) -> Seq<char> {
    render_string(k_timestamp()) + seq![':', ' '] + render_int(t)
}

/// The separator between two fields of the session object: a comma, a line
/// break, and the indent of the next line.
pub open spec fn field_sep() -> Seq<char> {
    seq![',', '\n', ' ', ' ']
}

/// The whole session document, pretty-printed with the fields in the order
/// `cookies`, `csrf_token`, `logged_in`, `timestamp`.
pub open spec fn spec_render_session(v: SessionView) -> Seq<char> {
    seq!['{', '\n', ' ', ' '] + cookies_field(v.cookies) + field_sep() + field_str(
        k_csrf_token(),
        v.csrf_token,
    ) + field_sep() + field_bool(k_logged_in(), v.logged_in) + field_sep() + timestamp_field(
        v.timestamp,
    ) + seq!['\n', '}']
}

fn push_escaped(out: &mut Vec<char>, s: &str)
    ensures
        final(out)@ == old(out)@ + escape(s@),
{
    let n = s.unicode_len();
    let mut i: usize = 0;
    while i < n
        invariant
            i <= n,
            n == s@.len(),
            out@ == old(out)@ + escape(s@.subrange(0, i as int)),
        decreases n - i,
    {
        let c = s.get_char(i);
        if c == '"' {
            out.push('\\');
            out.push('"');
        } else if c == '\\' {
            out.push('\\');
            out.push('\\');
        } else if c == '\n' {
            out.push('\\');
            out.push('n');
        } else if c == '\r' {
            out.push('\\');
            out.push('r');
        } else if c == '\t' {
            out.push('\\');
            out.push('t');
        } else {
            out.push(c);
        }
        proof {
            let pre = s@.subrange(0, i as int);
            let pre2 = s@.subrange(0, i + 1 as int);
            lemma_escape_snoc(pre, s@[i as int]);
            assert(pre.push(s@[i as int]) =~= pre2);
            assert(out@ =~= old(out)@ + escape(pre2));
        }
        i = i + 1;
    }
    assert(s@.subrange(0, n as int) =~= s@);
}

proof fn lemma_escape_snoc(s: Seq<char>, c: char)
    ensures
        escape(s.push(c)) == escape(s) + escape_char(c),
    decreases s.len(),
{
    if s.len() == 0 {
        assert(s.push(c)[0] == c);
        assert(s.push(c).drop_first() =~= Seq::<char>::empty());
        assert(escape(s.push(c)) == escape_char(c) + escape(Seq::<char>::empty()));
        assert(escape_char(c) + Seq::<char>::empty() =~= escape_char(c));
        assert(escape(s) + escape_char(c) =~= escape_char(c));
    } else {
        assert(s.push(c)[0] == s[0]);
        assert(s.push(c).drop_first() =~= s.drop_first().push(c));
        lemma_escape_snoc(s.drop_first(), c);
        assert(escape(s.push(c)) =~= escape(s) + escape_char(c));
    }
}

fn push_string_json(out: &mut Vec<char>, s: &str)
    ensures
        final(out)@ == old(out)@ + render_string(s@),
{
    out.push('"');
    push_escaped(out, s);
    out.push('"');
    assert(out@ =~= old(out)@ + render_string(s@));
}

fn push_bool(out: &mut Vec<char>, b: bool)
    ensures
        final(out)@ == old(out)@ + render_bool(b),
{
    if b {
        out.push('t');
        out.push('r');
        out.push('u');
        out.push('e');
        assert(out@ =~= old(out)@ + lit_true());
    } else {
        out.push('f');
        out.push('a');
        out.push('l');
        out.push('s');
        out.push('e');
        assert(out@ =~= old(out)@ + lit_false());
    }
}

pub(crate) fn push_u64_digits(out: &mut Vec<char>, n: u64)
    ensures
        final(out)@ == old(out)@ + dec_digits(n as nat),
    decreases n,
{
    if n < 10 {
        let c = digit_char(n);
        out.push(c);
        assert(out@ =~= old(out)@ + dec_digits(n as nat));
    } else {
        push_u64_digits(out, n / 10);
        let c = digit_char(n % 10);
        out.push(c);
        assert(out@ =~= old(out)@ + dec_digits(n as nat));
    }
}

fn digit_char(d: u64) -> (c: char)
    ensures
        c == char_of_digit(d as nat),
{
    if d == 1 {
        '1'
    } else if d == 2 {
        '2'
    } else if d == 3 {
        '3'
    } else if d == 4 {
        '4'
    } else if d == 5 {
        '5'
    } else if d == 6 {
        '6'
    } else if d == 7 {
        '7'
    } else if d == 8 {
        '8'
    } else if d == 9 {
        '9'
    } else {
        '0'
    }
}

fn push_i64(out: &mut Vec<char>, t: i64)
    ensures
        final(out)@ == old(out)@ + render_int(t as int),
{
    if t < 0 {
        out.push('-');
        let m: u64 = if t == i64::MIN {
            9223372036854775808u64
        } else {
            (-t) as u64
        };
        assert(m as nat == (-(t as int)) as nat);
        push_u64_digits(out, m);
        assert(out@ =~= old(out)@ + render_int(t as int));
    } else {
        push_u64_digits(out, t as u64);
    }
}

fn push_field_str(out: &mut Vec<char>, key: &str, val: &str)
    ensures
        final(out)@ == old(out)@ + field_str(key@, val@),
{
    push_string_json(out, key);
    out.push(':');
    out.push(' ');
    push_string_json(out, val);
    assert(out@ =~= old(out)@ + field_str(key@, val@));
}

fn push_field_bool(out: &mut Vec<char>, key: &str, b: bool)
    ensures
        final(out)@ == old(out)@ + field_bool(key@, b),
{
    push_string_json(out, key);
    out.push(':');
    out.push(' ');
    push_bool(out, b);
    assert(out@ =~= old(out)@ + field_bool(key@, b));
}

#[verifier::rlimit(100)]
fn push_cookie(out: &mut Vec<char>, c: &Cookie)
    ensures
        final(out)@ == old(out)@ + render_cookie(c@),
{
    out.push('{');
    push_field_str(out, "name", c.name.as_str());
    out.push(',');
    out.push(' ');
    push_field_str(out, "value", c.value.as_str());
    out.push(',');
    out.push(' ');
    push_field_str(out, "domain", c.domain.as_str());
    out.push(',');
    out.push(' ');
    push_field_str(out, "path", c.path.as_str());
    out.push(',');
    out.push(' ');
    push_field_bool(out, "http_only", c.http_only);
    out.push(',');
    out.push(' ');
    push_field_bool(out, "secure", c.secure);
    out.push('}');
    proof {
        lemma_key_literals();
        assert(out@ =~= old(out)@ + render_cookie(c@));
    }
}

/// Connects the string literals used by the executable code to the
/// character sequences the specifications are written with.
pub proof fn lemma_key_literals()
    ensures
        "cookies"@ == k_cookies(),
        "csrf_token"@ == k_csrf_token(),
        "logged_in"@ == k_logged_in(),
        "timestamp"@ == k_timestamp(),
        "name"@ == k_name(),
        "value"@ == k_value(),
        "domain"@ == k_domain(),
        "path"@ == k_path(),
        "http_only"@ == k_http_only(),
        "secure"@ == k_secure(),
{
    reveal_strlit("cookies");
    reveal_strlit("csrf_token");
    reveal_strlit("logged_in");
    reveal_strlit("timestamp");
    reveal_strlit("name");
    reveal_strlit("value");
    reveal_strlit("domain");
    reveal_strlit("path");
    reveal_strlit("http_only");
    reveal_strlit("secure");
    assert("cookies"@ =~= k_cookies());
    assert("csrf_token"@ =~= k_csrf_token());
    assert("logged_in"@ =~= k_logged_in());
    assert("timestamp"@ =~= k_timestamp());
    assert("name"@ =~= k_name());
    assert("value"@ =~= k_value());
    assert("domain"@ =~= k_domain());
    assert("path"@ =~= k_path());
    assert("http_only"@ =~= k_http_only());
    assert("secure"@ =~= k_secure());
}

/// Serializes a session record to its JSON document.
#[verifier::rlimit(100)]
pub fn session_to_json(data: &CacheData) -> (r: String)
    ensures
        r@ == spec_render_session(data@),
{
    let mut out: Vec<char> = Vec::new();
    out.push('{');
    out.push('\n');
    out.push(' ');
    out.push(' ');
    push_string_json(&mut out, "cookies");
    out.push(':');
    out.push(' ');
    out.push('[');
    let ghost before_items = out@;
    let mut i: usize = 0;
    while i < data.cookies.len()
        invariant
            i <= data.cookies@.len(),
            out@ == before_items + render_cookie_items(
                cookies_view(data.cookies@.subrange(0, i as int)),
            ),
        decreases data.cookies@.len() - i,
    {
        if i > 0 {
            out.push(',');
            out.push(' ');
        }
        push_cookie(&mut out, &data.cookies[i]);
        proof {
            broadcast use vstd::seq::Seq::lemma_push_map_commute;

            let pre = cookies_view(data.cookies@.subrange(0, i as int));
            let pre2 = cookies_view(data.cookies@.subrange(0, i + 1 as int));
            assert(data.cookies@.subrange(0, i + 1 as int) =~= data.cookies@.subrange(
                0,
                i as int,
            ).push(data.cookies@[i as int]));
            assert(pre2 =~= pre.push(data.cookies@[i as int]@));
            assert(pre2.drop_last() =~= pre);
            assert(pre2.last() == data.cookies@[i as int]@);
            if i == 0 {
                assert(render_cookie_items(pre2) == render_cookie(pre2[0]));
                assert(out@ =~= before_items + render_cookie_items(pre2));
            } else {
                assert(render_cookie_items(pre2) == render_cookie_items(pre) + seq![',', ' ']
                    + render_cookie(pre2.last()));
                assert(out@ =~= before_items + render_cookie_items(pre2));
            }
        }
        i = i + 1;
    }
    proof {
        assert(data.cookies@.subrange(0, data.cookies@.len() as int) =~= data.cookies@);
    }
    out.push(']');
    out.push(',');
    out.push('\n');
    out.push(' ');
    out.push(' ');
    push_string_json(&mut out, "csrf_token");
    out.push(':');
    out.push(' ');
    push_string_json(&mut out, data.csrf_token.as_str());
    out.push(',');
    out.push('\n');
    out.push(' ');
    out.push(' ');
    push_string_json(&mut out, "logged_in");
    out.push(':');
    out.push(' ');
    push_bool(&mut out, data.logged_in);
    out.push(',');
    out.push('\n');
    out.push(' ');
    out.push(' ');
    push_string_json(&mut out, "timestamp");
    out.push(':');
    out.push(' ');
    push_i64(&mut out, data.timestamp);
    out.push('\n');
    out.push('}');
    proof {
        lemma_key_literals();
        assert(out@ =~= spec_render_session(data@));
    }
    chars_to_string(&out)
}

// ---------------------------------------------------------------------------
// Parsing: specification
// ---------------------------------------------------------------------------

/// The first index at or after `i` holding a non-whitespace character.
pub open spec fn skip_ws(s: Seq<char>, i: int) -> int
    decreases s.len() - i
        when 0 <= i <= s.len()
{
    if i < s.len() && is_ws_char(s[i]) {
        skip_ws(s, i + 1)
    } else {
        i
    }
}

pub proof fn lemma_skip_ws_bounds(s: Seq<char>, i: int)
    requires
        0 <= i <= s.len(),
    ensures
        i <= skip_ws(s, i) <= s.len(),
    decreases s.len() - i,
{
    if i < s.len() && is_ws_char(s[i]) {
        lemma_skip_ws_bounds(s, i + 1);
    }
}

/// `skip_ws` jumps over exactly a run of whitespace.
pub proof fn lemma_skip_ws_run(s: Seq<char>, i: int, j: int)
    requires
        0 <= i <= j <= s.len(),
        forall|k: int| i <= k < j ==> is_ws_char(s[k]),
        j < s.len() ==> !is_ws_char(s[j]),
    ensures
        skip_ws(s, i) == j,
    decreases j - i,
{
    if i < j {
        assert(is_ws_char(s[i]));
        lemma_skip_ws_run(s, i + 1, j);
    }
}

/// The body of a JSON string starting just after the opening quote: the
/// unescaped content and the position just past the closing quote.
pub open spec fn parse_string_body(s: Seq<char>, i: int) -> Option<(Seq<char>, int)>
    decreases s.len() - i
        when 0 <= i <= s.len()
{
    if i >= s.len() {
        None
    } else if s[i] == '"' {
        Some((Seq::empty(), i + 1))
    } else if s[i] == '\\' {
        if i + 1 >= s.len() {
            None
        } else {
            match unescape_char(s[i + 1]) {
                None => None,
                Some(ch) => match parse_string_body(s, i + 2) {
                    None => None,
                    Some(p) => Some((seq![ch] + p.0, p.1)),
                },
            }
        }
    } else {
        match parse_string_body(s, i + 1) {
            None => None,
            Some(p) => Some((seq![s[i]] + p.0, p.1)),
        }
    }
}

pub proof fn lemma_parse_string_body_bounds(s: Seq<char>, i: int)
    requires
        0 <= i <= s.len(),
    ensures
        match parse_string_body(s, i) {
            Some(p) => i < p.1 <= s.len(),
            None => true,
        },
    decreases s.len() - i,
{
    if i < s.len() {
        if s[i] == '"' {
        } else if s[i] == '\\' {
            if i + 1 < s.len() {
                lemma_parse_string_body_bounds(s, i + 2);
            }
        } else {
            lemma_parse_string_body_bounds(s, i + 1);
        }
    }
}

/// A JSON string starting with its opening quote at `i`.
pub open spec fn parse_string_at(s: Seq<char>, i: int) -> Option<(Seq<char>, int)> {
    if 0 <= i && i < s.len() && s[i] == '"' {
        parse_string_body(s, i + 1)
    } else {
        None
    }
}

pub proof fn lemma_parse_string_at_bounds(s: Seq<char>, i: int)
    requires
        0 <= i <= s.len(),
    ensures
        match parse_string_at(s, i) {
            Some(p) => i < p.1 <= s.len(),
            None => true,
        },
{
    if i < s.len() && s[i] == '"' {
        lemma_parse_string_body_bounds(s, i + 1);
    }
}

/// Whether the word `w` stands at position `i` of `s`.
pub open spec fn matches_at(s: Seq<char>, i: int, w: Seq<char>) -> bool {
    0 <= i && i + w.len() <= s.len() && s.subrange(i, i + w.len() as int) == w
}

/// A JSON boolean literal at `i`.
pub open spec fn parse_bool_at(s: Seq<char>, i: int) -> Option<(bool, int)> {
    if matches_at(s, i, lit_true()) {
        Some((true, i + 4))
    } else if matches_at(s, i, lit_false()) {
        Some((false, i + 5))
    } else {
        None
    }
}

/// The end of the run of digits starting at `i`.
pub open spec fn digits_end(s: Seq<char>, i: int) -> int
    decreases s.len() - i
        when 0 <= i <= s.len()
{
    if i < s.len() && is_digit(s[i]) {
        digits_end(s, i + 1)
    } else {
        i
    }
}

pub proof fn lemma_digits_end_bounds(s: Seq<char>, i: int)
    requires
        0 <= i <= s.len(),
    ensures
        i <= digits_end(s, i) <= s.len(),
    decreases s.len() - i,
{
    if i < s.len() && is_digit(s[i]) {
        lemma_digits_end_bounds(s, i + 1);
    }
}

/// `digits_end` jumps over exactly a run of digits.
pub proof fn lemma_digits_run(s: Seq<char>, i: int, j: int)
    requires
        0 <= i <= j <= s.len(),
        forall|k: int| i <= k < j ==> is_digit(s[k]),
        j < s.len() ==> !is_digit(s[j]),
    ensures
        digits_end(s, i) == j,
    decreases j - i,
{
    if i < j {
        assert(is_digit(s[i]));
        lemma_digits_run(s, i + 1, j);
    }
}

/// Folds a digit run into a value, left to right, refusing a value that
/// does not fit in 64 bits. The bound test is written in the divided form
/// so that executable code can mirror it exactly.
pub open spec fn acc_digits(ds: Seq<char>, acc: nat) -> Option<nat>
    decreases ds.len(),
{
    if ds.len() == 0 {
        Some(acc)
    } else if acc > u64::MAX as nat / 10 || (acc == u64::MAX as nat / 10 && digit_of(ds[0])
        > u64::MAX as nat % 10) {
        None
    } else {
        acc_digits(ds.drop_first(), acc * 10 + digit_of(ds[0]))
    }
}

/// A JSON integer at `i`: an optional minus sign and a digit run, refused
/// when the value does not fit in a signed 64-bit integer.
pub open spec fn parse_int_at(s: Seq<char>, i: int) -> Option<(int, int)> {
    let neg = 0 <= i < s.len() && s[i] == '-';
    let i1 = if neg {
        i + 1
    } else {
        i
    };
    let j = digits_end(s, i1);
    if j == i1 {
        None
    } else {
        match acc_digits(s.subrange(i1, j), 0) {
            None => None,
            Some(m) => if neg {
                if m <= 0x8000_0000_0000_0000 {
                    Some((-(m as int), j))
                } else {
                    None
                }
            } else {
                if m <= 0x7FFF_FFFF_FFFF_FFFF {
                    Some((m as int, j))
                } else {
                    None
                }
            },
        }
    }
}

/// A cookie object while its fields are being read.
pub ghost struct PartialCookie {
    pub name: Option<Seq<char>>,
    pub value: Option<Seq<char>>,
    pub domain: Option<Seq<char>>,
    pub path: Option<Seq<char>>,
    pub http_only: Option<bool>,
    pub secure: Option<bool>,
}

pub open spec fn empty_cookie_acc() -> PartialCookie {
    PartialCookie {
        name: None,
        value: None,
        domain: None,
        path: None,
        http_only: None,
        secure: None,
    }
}

/// A finished cookie object: every field must have appeared.
pub open spec fn finish_cookie(a: PartialCookie) -> Option<CookieView> {
    if a.name is Some && a.value is Some && a.domain is Some && a.path is Some && a.http_only
        is Some && a.secure is Some {
        Some(
            (CookieView {
                name: a.name.unwrap(),
                value: a.value.unwrap(),
                domain: a.domain.unwrap(),
                path: a.path.unwrap(),
                http_only: a.http_only.unwrap(),
                secure: a.secure.unwrap(),
            }),
        )
    } else {
        None
    }
}

/// Reads the value belonging to one key of a cookie object and records it.
pub open spec fn cookie_field_step(
    s: Seq<char>,
    i: int,
    acc: PartialCookie,
    key: Seq<char>,
) -> Option<(PartialCookie, int)> {
    if key == k_name() {
        match parse_string_at(s, i) {
            None => None,
            Some(p) => Some(
                (
                    (PartialCookie {
                        name: Some(p.0),
                        value: acc.value,
                        domain: acc.domain,
                        path: acc.path,
                        http_only: acc.http_only,
                        secure: acc.secure,
                    }),
                    p.1,
                ),
            ),
        }
    } else if key == k_value() {
        match parse_string_at(s, i) {
            None => None,
            Some(p) => Some(
                (
                    (PartialCookie {
                        name: acc.name,
                        value: Some(p.0),
                        domain: acc.domain,
                        path: acc.path,
                        http_only: acc.http_only,
                        secure: acc.secure,
                    }),
                    p.1,
                ),
            ),
        }
    } else if key == k_domain() {
        match parse_string_at(s, i) {
            None => None,
            Some(p) => Some(
                (
                    (PartialCookie {
                        name: acc.name,
                        value: acc.value,
                        domain: Some(p.0),
                        path: acc.path,
                        http_only: acc.http_only,
                        secure: acc.secure,
                    }),
                    p.1,
                ),
            ),
        }
    } else if key == k_path() {
        match parse_string_at(s, i) {
            None => None,
            Some(p) => Some(
                (
                    (PartialCookie {
                        name: acc.name,
                        value: acc.value,
                        domain: acc.domain,
                        path: Some(p.0),
                        http_only: acc.http_only,
                        secure: acc.secure,
                    }),
                    p.1,
                ),
            ),
        }
    } else if key == k_http_only() {
        match parse_bool_at(s, i) {
            None => None,
            Some(p) => Some(
                (
                    (PartialCookie {
                        name: acc.name,
                        value: acc.value,
                        domain: acc.domain,
                        path: acc.path,
                        http_only: Some(p.0),
                        secure: acc.secure,
                    }),
                    p.1,
                ),
            ),
        }
    } else if key == k_secure() {
        match parse_bool_at(s, i) {
            None => None,
            Some(p) => Some(
                (
                    (PartialCookie {
                        name: acc.name,
                        value: acc.value,
                        domain: acc.domain,
                        path: acc.path,
                        http_only: acc.http_only,
                        secure: Some(p.0),
                    }),
                    p.1,
                ),
            ),
        }
    } else {
        None
    }
}

/// The fields of a cookie object, read one `"key": value` pair per step,
/// in any order, separated by commas and closed by `}`. The fuel bounds
/// the number of separators, which a six-field object never exceeds.
pub open spec fn parse_cookie_fields(
    s: Seq<char>,
    i: int,
    acc: PartialCookie,
    fuel: nat,
) -> Option<(CookieView, int)>
    decreases fuel,
{
    let i0 = skip_ws(s, i);
    match parse_string_at(s, i0) {
        None => None,
        Some(kp) => {
            let i2 = skip_ws(s, kp.1);
            if !(0 <= i2 && i2 < s.len() && s[i2] == ':') {
                None
            } else {
                let i3 = skip_ws(s, i2 + 1);
                match cookie_field_step(s, i3, acc, kp.0) {
                    None => None,
                    Some(sp) => {
                        let i5 = skip_ws(s, sp.1);
                        if 0 <= i5 && i5 < s.len() && s[i5] == ',' {
                            if fuel == 0 {
                                None
                            } else {
                                parse_cookie_fields(s, i5 + 1, sp.0, (fuel - 1) as nat)
                            }
                        } else if 0 <= i5 && i5 < s.len() && s[i5] == '}' {
                            match finish_cookie(sp.0) {
                                None => None,
                                Some(c) => Some((c, i5 + 1)),
                            }
                        } else {
                            None
                        }
                    },
                }
            }
        },
    }
}

/// A cookie object with its opening brace at `i`.
pub open spec fn parse_cookie_at(s: Seq<char>, i: int) -> Option<(CookieView, int)> {
    if 0 <= i && i < s.len() && s[i] == '{' {
        parse_cookie_fields(s, i + 1, empty_cookie_acc(), 5)
    } else {
        None
    }
}

/// The items of a non-empty cookie array, one object per step, separated
/// by commas and closed by `]`.
pub open spec fn parse_cookie_items(
    s: Seq<char>,
    i: int,
    acc: Seq<CookieView>,
    fuel: nat,
) -> Option<(Seq<CookieView>, int)>
    decreases fuel,
{
    let i0 = skip_ws(s, i);
    match parse_cookie_at(s, i0) {
        None => None,
        Some(cp) => {
            let i1 = skip_ws(s, cp.1);
            if 0 <= i1 && i1 < s.len() && s[i1] == ',' {
                if fuel == 0 {
                    None
                } else {
                    parse_cookie_items(s, i1 + 1, acc.push(cp.0), (fuel - 1) as nat)
                }
            } else if 0 <= i1 && i1 < s.len() && s[i1] == ']' {
                Some((acc.push(cp.0), i1 + 1))
            } else {
                None
            }
        },
    }
}

/// A cookie array with its opening bracket at `i`.
pub open spec fn parse_cookie_array(s: Seq<char>, i: int) -> Option<(Seq<CookieView>, int)> {
    if 0 <= i && i < s.len() && s[i] == '[' {
        let i1 = skip_ws(s, i + 1);
        if 0 <= i1 && i1 < s.len() && s[i1] == ']' {
            Some((Seq::empty(), i1 + 1))
        } else {
            parse_cookie_items(s, i + 1, Seq::empty(), s.len() as nat)
        }
    } else {
        None
    }
}

/// A session record while its fields are being read.
pub ghost struct PartialSession {
    pub cookies: Option<Seq<CookieView>>,
    pub csrf_token: Option<Seq<char>>,
    pub logged_in: Option<bool>,
    pub timestamp: Option<int>,
}

pub open spec fn empty_session_acc() -> PartialSession {
    PartialSession { cookies: None, csrf_token: None, logged_in: None, timestamp: None }
}

/// A finished session object: every field must have appeared.
pub open spec fn finish_session(a: PartialSession) -> Option<SessionView> {
    if a.cookies is Some && a.csrf_token is Some && a.logged_in is Some && a.timestamp is Some {
        Some(
            (SessionView {
                cookies: a.cookies.unwrap(),
                csrf_token: a.csrf_token.unwrap(),
                logged_in: a.logged_in.unwrap(),
                timestamp: a.timestamp.unwrap(),
            }),
        )
    } else {
        None
    }
}

/// Reads the value belonging to one key of the session object.
pub open spec fn session_field_step(
    s: Seq<char>,
    i: int,
    acc: PartialSession,
    key: Seq<char>,
) -> Option<(PartialSession, int)> {
    if key == k_cookies() {
        match parse_cookie_array(s, i) {
            None => None,
            Some(p) => Some(
                (
                    (PartialSession {
                        cookies: Some(p.0),
                        csrf_token: acc.csrf_token,
                        logged_in: acc.logged_in,
                        timestamp: acc.timestamp,
                    }),
                    p.1,
                ),
            ),
        }
    } else if key == k_csrf_token() {
        match parse_string_at(s, i) {
            None => None,
            Some(p) => Some(
                (
                    (PartialSession {
                        cookies: acc.cookies,
                        csrf_token: Some(p.0),
                        logged_in: acc.logged_in,
                        timestamp: acc.timestamp,
                    }),
                    p.1,
                ),
            ),
        }
    } else if key == k_logged_in() {
        match parse_bool_at(s, i) {
            None => None,
            Some(p) => Some(
                (
                    (PartialSession {
                        cookies: acc.cookies,
                        csrf_token: acc.csrf_token,
                        logged_in: Some(p.0),
                        timestamp: acc.timestamp,
                    }),
                    p.1,
                ),
            ),
        }
    } else if key == k_timestamp() {
        match parse_int_at(s, i) {
            None => None,
            Some(p) => Some(
                (
                    (PartialSession {
                        cookies: acc.cookies,
                        csrf_token: acc.csrf_token,
                        logged_in: acc.logged_in,
                        timestamp: Some(p.0),
                    }),
                    p.1,
                ),
            ),
        }
    } else {
        None
    }
}

/// The fields of the session object, in any order; the fuel bounds the
/// number of separators, which a four-field object never exceeds.
pub open spec fn parse_session_fields(
    s: Seq<char>,
    i: int,
    acc: PartialSession,
    fuel: nat,
) -> Option<(SessionView, int)>
    decreases fuel,
{
    let i0 = skip_ws(s, i);
    match parse_string_at(s, i0) {
        None => None,
        Some(kp) => {
            let i2 = skip_ws(s, kp.1);
            if !(0 <= i2 && i2 < s.len() && s[i2] == ':') {
                None
            } else {
                let i3 = skip_ws(s, i2 + 1);
                match session_field_step(s, i3, acc, kp.0) {
                    None => None,
                    Some(sp) => {
                        let i5 = skip_ws(s, sp.1);
                        if 0 <= i5 && i5 < s.len() && s[i5] == ',' {
                            if fuel == 0 {
                                None
                            } else {
                                parse_session_fields(s, i5 + 1, sp.0, (fuel - 1) as nat)
                            }
                        } else if 0 <= i5 && i5 < s.len() && s[i5] == '}' {
                            match finish_session(sp.0) {
                                None => None,
                                Some(v) => Some((v, i5 + 1)),
                            }
                        } else {
                            None
                        }
                    },
                }
            }
        },
    }
}

/// What parsing a whole session document yields: optional surrounding
/// whitespace, one session object, and nothing after it.
pub open spec fn spec_parse_session(s: Seq<char>) -> Option<SessionView> {
    let i0 = skip_ws(s, 0);
    if 0 <= i0 && i0 < s.len() && s[i0] == '{' {
        match parse_session_fields(s, i0 + 1, empty_session_acc(), 3) {
            None => None,
            Some(p) => if skip_ws(s, p.1) == s.len() {
                Some(p.0)
            } else {
                None
            },
        }
    } else {
        None
    }
}

// ---------------------------------------------------------------------------
// Parsing: executable code
// ---------------------------------------------------------------------------

fn p_skip_ws(v: &Vec<char>, i: usize) -> (r: usize)
    requires
        i <= v@.len(),
    ensures
        r as int == skip_ws(v@, i as int),
        i <= r <= v@.len(),
{
    let mut j = i;
    while j < v.len() && crate::strutil::is_ws(v[j])
        invariant
            i <= j <= v@.len(),
            skip_ws(v@, i as int) == skip_ws(v@, j as int),
        decreases v@.len() - j,
    {
        j = j + 1;
    }
    j
}

fn unescape_char_exec(c: char) -> (r: Option<char>)
    ensures
        r == unescape_char(c),
{
    if c == '"' {
        Some('"')
    } else if c == '\\' {
        Some('\\')
    } else if c == 'n' {
        Some('\n')
    } else if c == 'r' {
        Some('\r')
    } else if c == 't' {
        Some('\t')
    } else {
        None
    }
}

fn p_string_at(v: &Vec<char>, i: usize) -> (r: Option<(Vec<char>, usize)>)
    requires
        i <= v@.len(),
    ensures
        match r {
            Some(p) => parse_string_at(v@, i as int) == Some((p.0@, p.1 as int)) && i < p.1
                <= v@.len(),
            None => parse_string_at(v@, i as int) is None,
        },
{
    if !(i < v.len()) || v[i] != '"' {
        return None;
    }
    let mut j: usize = i + 1;
    let mut acc: Vec<char> = Vec::new();
    loop
        invariant
            i < v@.len(),
            v@[i as int] == '"',
            i + 1 <= j <= v@.len(),
            (match parse_string_body(v@, j as int) {
                Some(p) => parse_string_body(v@, (i + 1) as int) == Some((acc@ + p.0, p.1)),
                None => parse_string_body(v@, (i + 1) as int) is None,
            }),
        decreases v@.len() - j,
    {
        if j >= v.len() {
            return None;
        }
        let c = v[j];
        if c == '"' {
            proof {
                assert(parse_string_body(v@, j as int) == Some((Seq::<char>::empty(), j + 1)));
                assert(acc@ + Seq::<char>::empty() =~= acc@);
                lemma_parse_string_body_bounds(v@, (i + 1) as int);
            }
            return Some((acc, j + 1));
        } else if c == '\\' {
            if j + 1 >= v.len() {
                return None;
            }
            let e = v[j + 1];
            match unescape_char_exec(e) {
                None => {
                    return None;
                },
                Some(ch) => {
                    let ghost acc_pre = acc@;
                    acc.push(ch);
                    proof {
                        match parse_string_body(v@, (j + 2) as int) {
                            Some(p) => {
                                assert(parse_string_body(v@, j as int) == Some(
                                    (seq![ch] + p.0, p.1),
                                ));
                                assert(acc_pre + (seq![ch] + p.0) =~= acc@ + p.0);
                            },
                            None => {
                                assert(parse_string_body(v@, j as int) is None);
                            },
                        }
                    }
                    j = j + 2;
                },
            }
        } else {
            let ghost acc_pre = acc@;
            acc.push(c);
            proof {
                match parse_string_body(v@, (j + 1) as int) {
                    Some(p) => {
                        assert(parse_string_body(v@, j as int) == Some((seq![c] + p.0, p.1)));
                        assert(acc_pre + (seq![c] + p.0) =~= acc@ + p.0);
                    },
                    None => {
                        assert(parse_string_body(v@, j as int) is None);
                    },
                }
            }
            j = j + 1;
        }
    }
}

fn p_bool_at(v: &Vec<char>, i: usize) -> (r: Option<(bool, usize)>)
    requires
        i <= v@.len(),
    ensures
        match r {
            Some(p) => parse_bool_at(v@, i as int) == Some((p.0, p.1 as int)) && i < p.1
                <= v@.len(),
            None => parse_bool_at(v@, i as int) is None,
        },
{
    if v.len() - i >= 4 && v[i] == 't' && v[i + 1] == 'r' && v[i + 2] == 'u' && v[i + 3] == 'e' {
        proof {
            assert(v@.subrange(i as int, i + 4 as int) =~= lit_true());
        }
        Some((true, i + 4))
    } else if v.len() - i >= 5 && v[i] == 'f' && v[i + 1] == 'a' && v[i + 2] == 'l' && v[i + 3]
        == 's' && v[i + 4] == 'e' {
        proof {
            assert(v@.subrange(i as int, i + 5 as int) =~= lit_false());
            if matches_at(v@, i as int, lit_true()) {
                assert(v@.subrange(i as int, i + 4 as int)[0] == 't');
            }
        }
        Some((false, i + 5))
    } else {
        proof {
            if matches_at(v@, i as int, lit_true()) {
                let w = v@.subrange(i as int, i + 4 as int);
                assert(v@[i as int] == w[0] && v@[i as int + 1] == w[1] && v@[i as int + 2] == w[2]
                    && v@[i as int + 3] == w[3]);
            }
            if matches_at(v@, i as int, lit_false()) {
                let w = v@.subrange(i as int, i + 5 as int);
                assert(v@[i as int] == w[0] && v@[i as int + 1] == w[1] && v@[i as int + 2] == w[2]
                    && v@[i as int + 3] == w[3] && v@[i as int + 4] == w[4]);
            }
        }
        None
    }
}

fn is_digit_exec(c: char) -> (r: bool)
    ensures
        r == is_digit(c),
{
    c == '0' || c == '1' || c == '2' || c == '3' || c == '4' || c == '5' || c == '6' || c == '7'
        || c == '8' || c == '9'
}

fn digit_val(c: char) -> (r: u64)
    ensures
        r as nat == digit_of(c),
        r <= 9,
{
    if c == '1' {
        1
    } else if c == '2' {
        2
    } else if c == '3' {
        3
    } else if c == '4' {
        4
    } else if c == '5' {
        5
    } else if c == '6' {
        6
    } else if c == '7' {
        7
    } else if c == '8' {
        8
    } else if c == '9' {
        9
    } else {
        0
    }
}

proof fn lemma_acc_digits_snoc(ds: Seq<char>, c: char, a: nat)
    ensures
        acc_digits(ds.push(c), a) == (match acc_digits(ds, a) {
            Some(m) => if m > u64::MAX as nat / 10 || (m == u64::MAX as nat / 10 && digit_of(c)
                > u64::MAX as nat % 10) {
                None::<nat>
            } else {
                Some((m * 10 + digit_of(c)) as nat)
            },
            None => None::<nat>,
        }),
    decreases ds.len(),
{
    let t = u64::MAX as nat / 10;
    let u = u64::MAX as nat % 10;
    if ds.len() == 0 {
        assert(ds.push(c).len() == 1);
        assert(ds.push(c)[0] == c);
        assert(ds.push(c).drop_first() =~= Seq::<char>::empty());
        assert(acc_digits(ds, a) == Some(a));
        if a > t || (a == t && digit_of(c) > u) {
            assert(acc_digits(ds.push(c), a) is None);
        } else {
            assert(acc_digits(ds.push(c), a) == acc_digits(
                ds.push(c).drop_first(),
                a * 10 + digit_of(c),
            ));
            assert(acc_digits(Seq::<char>::empty(), a * 10 + digit_of(c)) == Some(
                (a * 10 + digit_of(c)) as nat,
            ));
        }
    } else {
        assert(ds.push(c).len() == ds.len() + 1);
        assert(ds.push(c)[0] == ds[0]);
        assert(ds.push(c).drop_first() =~= ds.drop_first().push(c));
        if a > t || (a == t && digit_of(ds[0]) > u) {
            assert(acc_digits(ds.push(c), a) is None);
            assert(acc_digits(ds, a) is None);
        } else {
            let a2 = a * 10 + digit_of(ds[0]);
            assert(acc_digits(ds.push(c), a) == acc_digits(ds.drop_first().push(c), a2 as nat));
            assert(acc_digits(ds, a) == acc_digits(ds.drop_first(), a2 as nat));
            lemma_acc_digits_snoc(ds.drop_first(), c, a2 as nat);
        }
    }
}

fn p_int_at(v: &Vec<char>, i: usize) -> (r: Option<(i64, usize)>)
    requires
        i <= v@.len(),
    ensures
        match r {
            Some(p) => parse_int_at(v@, i as int) == Some((p.0 as int, p.1 as int)) && i < p.1
                <= v@.len(),
            None => parse_int_at(v@, i as int) is None,
        },
{
    let neg = i < v.len() && v[i] == '-';
    let i1 = if neg {
        i + 1
    } else {
        i
    };
    let mut j = i1;
    let mut ok = true;
    let mut m: u64 = 0;
    while j < v.len() && is_digit_exec(v[j])
        invariant
            i <= i1 <= j <= v@.len(),
            digits_end(v@, i1 as int) == digits_end(v@, j as int),
            ok ==> acc_digits(v@.subrange(i1 as int, j as int), 0) == Some(m as nat),
            !ok ==> acc_digits(v@.subrange(i1 as int, j as int), 0) is None,
        decreases v@.len() - j,
    {
        let c = v[j];
        let d = digit_val(c);
        proof {
            lemma_acc_digits_snoc(v@.subrange(i1 as int, j as int), v@[j as int], 0);
            assert(v@.subrange(i1 as int, j + 1 as int) =~= v@.subrange(
                i1 as int,
                j as int,
            ).push(v@[j as int]));
        }
        if ok {
            if m > u64::MAX / 10 || (m == u64::MAX / 10 && d > u64::MAX % 10) {
                ok = false;
            } else {
                m = m * 10 + d;
            }
        }
        j = j + 1;
    }
    if j == i1 {
        return None;
    }
    if !ok {
        return None;
    }
    if neg {
        if m > 9223372036854775808u64 {
            None
        } else if m == 9223372036854775808u64 {
            Some((i64::MIN, j))
        } else {
            Some((-(m as i64), j))
        }
    } else {
        if m > 9223372036854775807u64 {
            None
        } else {
            Some((m as i64, j))
        }
    }
}

/// A cookie object while its fields are being read by executable code.
struct CookieAcc {
    name: Option<String>,
    value: Option<String>,
    domain: Option<String>,
    path: Option<String>,
    http_only: Option<bool>,
    secure: Option<bool>,
}

spec fn cookie_acc_view(a: CookieAcc) -> PartialCookie {
    PartialCookie {
        name: match a.name {
            Some(s) => Some(s@),
            None => None,
        },
        value: match a.value {
            Some(s) => Some(s@),
            None => None,
        },
        domain: match a.domain {
            Some(s) => Some(s@),
            None => None,
        },
        path: match a.path {
            Some(s) => Some(s@),
            None => None,
        },
        http_only: a.http_only,
        secure: a.secure,
    }
}

#[verifier::rlimit(100)]
fn p_cookie_at(v: &Vec<char>, i: usize) -> (r: Option<(Cookie, usize)>)
    requires
        i <= v@.len(),
    ensures
        match r {
            Some(p) => parse_cookie_at(v@, i as int) == Some((p.0@, p.1 as int)) && i < p.1
                <= v@.len(),
            None => parse_cookie_at(v@, i as int) is None,
        },
{
    if !(i < v.len()) || v[i] != '{' {
        return None;
    }
    let mut acc = CookieAcc {
        name: None,
        value: None,
        domain: None,
        path: None,
        http_only: None,
        secure: None,
    };
    let mut j: usize = i + 1;
    let mut fuel: usize = 5;
    loop
        invariant
            i < v@.len(),
            v@[i as int] == '{',
            i + 1 <= j <= v@.len(),
            parse_cookie_fields(v@, (i + 1) as int, empty_cookie_acc(), 5) == parse_cookie_fields(
                v@,
                j as int,
                cookie_acc_view(acc),
                fuel as nat,
            ),
        decreases fuel,
    {
        let ghost acc_pre = cookie_acc_view(acc);
        let i0 = p_skip_ws(v, j);
        let kp = match p_string_at(v, i0) {
            None => {
                return None;
            },
            Some(x) => x,
        };
        let key = kp.0;
        let i2 = p_skip_ws(v, kp.1);
        if !(i2 < v.len()) || v[i2] != ':' {
            return None;
        }
        let i3 = p_skip_ws(v, i2 + 1);
        proof {
            lemma_key_literals();
        }
        let i4: usize;
        if crate::strutil::chars_eq_str(&key, "name") {
            match p_string_at(v, i3) {
                None => {
                    return None;
                },
                Some(p) => {
                    acc.name = Some(chars_to_string(&p.0));
                    i4 = p.1;
                },
            }
        } else if crate::strutil::chars_eq_str(&key, "value") {
            match p_string_at(v, i3) {
                None => {
                    return None;
                },
                Some(p) => {
                    acc.value = Some(chars_to_string(&p.0));
                    i4 = p.1;
                },
            }
        } else if crate::strutil::chars_eq_str(&key, "domain") {
            match p_string_at(v, i3) {
                None => {
                    return None;
                },
                Some(p) => {
                    acc.domain = Some(chars_to_string(&p.0));
                    i4 = p.1;
                },
            }
        } else if crate::strutil::chars_eq_str(&key, "path") {
            match p_string_at(v, i3) {
                None => {
                    return None;
                },
                Some(p) => {
                    acc.path = Some(chars_to_string(&p.0));
                    i4 = p.1;
                },
            }
        } else if crate::strutil::chars_eq_str(&key, "http_only") {
            match p_bool_at(v, i3) {
                None => {
                    return None;
                },
                Some(p) => {
                    acc.http_only = Some(p.0);
                    i4 = p.1;
                },
            }
        } else if crate::strutil::chars_eq_str(&key, "secure") {
            match p_bool_at(v, i3) {
                None => {
                    return None;
                },
                Some(p) => {
                    acc.secure = Some(p.0);
                    i4 = p.1;
                },
            }
        } else {
            proof {
                assert(cookie_field_step(v@, i3 as int, acc_pre, key@) is None);
            }
            return None;
        }
        proof {
            assert(cookie_field_step(v@, i3 as int, acc_pre, key@) == Some(
                (cookie_acc_view(acc), i4 as int),
            ));
        }
        let i5 = p_skip_ws(v, i4);
        if i5 < v.len() && v[i5] == ',' {
            if fuel == 0 {
                return None;
            }
            j = i5 + 1;
            fuel = fuel - 1;
        } else if i5 < v.len() && v[i5] == '}' {
            let CookieAcc { name, value, domain, path, http_only, secure } = acc;
            match (name, value, domain, path, http_only, secure) {
                (Some(n), Some(vv), Some(d), Some(p_), Some(h), Some(sc)) => {
                    let c = Cookie {
                        name: n,
                        value: vv,
                        domain: d,
                        path: p_,
                        http_only: h,
                        secure: sc,
                    };
                    return Some((c, i5 + 1));
                },
                _ => {
                    return None;
                },
            }
        } else {
            return None;
        }
    }
}

#[verifier::rlimit(60)]
fn p_cookie_array_at(v: &Vec<char>, i: usize) -> (r: Option<(Vec<Cookie>, usize)>)
    requires
        i <= v@.len(),
    ensures
        match r {
            Some(p) => parse_cookie_array(v@, i as int) == Some((cookies_view(p.0@), p.1 as int))
                && i < p.1 <= v@.len(),
            None => parse_cookie_array(v@, i as int) is None,
        },
{
    if !(i < v.len()) || v[i] != '[' {
        return None;
    }
    let i1 = p_skip_ws(v, i + 1);
    if i1 < v.len() && v[i1] == ']' {
        let empty: Vec<Cookie> = Vec::new();
        proof {
            assert(cookies_view(empty@) =~= Seq::<CookieView>::empty());
        }
        return Some((empty, i1 + 1));
    }
    let mut items: Vec<Cookie> = Vec::new();
    let mut j = i + 1;
    let mut fuel: usize = v.len();
    proof {
        assert(cookies_view(items@) =~= Seq::<CookieView>::empty());
    }
    loop
        invariant
            i < v@.len(),
            v@[i as int] == '[',
            !(skip_ws(v@, i + 1 as int) < v@.len() && v@[skip_ws(v@, i + 1 as int)] == ']'),
            i + 1 <= j <= v@.len(),
            parse_cookie_items(v@, (i + 1) as int, Seq::empty(), v@.len() as nat)
                == parse_cookie_items(v@, j as int, cookies_view(items@), fuel as nat),
        decreases fuel,
    {
        let i0 = p_skip_ws(v, j);
        let cp = match p_cookie_at(v, i0) {
            None => {
                return None;
            },
            Some(x) => x,
        };
        let i1b = p_skip_ws(v, cp.1);
        let ghost pre_items = cookies_view(items@);
        if i1b < v.len() && v[i1b] == ',' {
            if fuel == 0 {
                return None;
            }
            items.push(cp.0);
            proof {
                broadcast use vstd::seq::Seq::lemma_push_map_commute;

                assert(cookies_view(items@) =~= pre_items.push(cp.0@));
            }
            j = i1b + 1;
            fuel = fuel - 1;
        } else if i1b < v.len() && v[i1b] == ']' {
            items.push(cp.0);
            proof {
                broadcast use vstd::seq::Seq::lemma_push_map_commute;

                assert(cookies_view(items@) =~= pre_items.push(cp.0@));
            }
            return Some((items, i1b + 1));
        } else {
            return None;
        }
    }
}

/// A session record while its fields are being read by executable code.
struct SessionAcc {
    cookies: Option<Vec<Cookie>>,
    csrf_token: Option<String>,
    logged_in: Option<bool>,
    timestamp: Option<i64>,
}

spec fn session_acc_view(a: SessionAcc) -> PartialSession {
    PartialSession {
        cookies: match a.cookies {
            Some(cs) => Some(cookies_view(cs@)),
            None => None,
        },
        csrf_token: match a.csrf_token {
            Some(s) => Some(s@),
            None => None,
        },
        logged_in: a.logged_in,
        timestamp: match a.timestamp {
            Some(t) => Some(t as int),
            None => None,
        },
    }
}

/// Parses a session record from its JSON document. The fields may come in
/// any order; all four must be present, and nothing but whitespace may
/// follow the closing brace.
#[verifier::rlimit(100)]
pub fn session_from_json(text: &str) -> (r: Result<CacheData, ApiError>)
    ensures
        match r {
            Ok(d) => spec_parse_session(text@) == Some(d@),
            Err(e) => spec_parse_session(text@) is None && e@ is JsonError,
        },
{
    let v = str_to_chars(text);
    let i0 = p_skip_ws(&v, 0);
    if !(i0 < v.len()) || v[i0] != '{' {
        return Err(ApiError::JsonError(String::from_str("malformed session document")));
    }
    let mut acc = SessionAcc { cookies: None, csrf_token: None, logged_in: None, timestamp: None };
    let mut j: usize = i0 + 1;
    let mut fuel: usize = 3;
    loop
        invariant
            v@ == text@,
            i0 as int == skip_ws(v@, 0),
            i0 < v@.len(),
            v@[i0 as int] == '{',
            i0 + 1 <= j <= v@.len(),
            parse_session_fields(v@, (i0 + 1) as int, empty_session_acc(), 3)
                == parse_session_fields(v@, j as int, session_acc_view(acc), fuel as nat),
        decreases fuel,
    {
        let ghost acc_pre = session_acc_view(acc);
        let k0 = p_skip_ws(&v, j);
        let kp = match p_string_at(&v, k0) {
            None => {
                return Err(ApiError::JsonError(String::from_str("expected a field name")));
            },
            Some(x) => x,
        };
        let key = kp.0;
        let i2 = p_skip_ws(&v, kp.1);
        if !(i2 < v.len()) || v[i2] != ':' {
            return Err(ApiError::JsonError(String::from_str("expected a colon")));
        }
        let i3 = p_skip_ws(&v, i2 + 1);
        proof {
            lemma_key_literals();
        }
        let i4: usize;
        if crate::strutil::chars_eq_str(&key, "cookies") {
            match p_cookie_array_at(&v, i3) {
                None => {
                    return Err(ApiError::JsonError(String::from_str("malformed cookie array")));
                },
                Some(p) => {
                    acc.cookies = Some(p.0);
                    i4 = p.1;
                },
            }
        } else if crate::strutil::chars_eq_str(&key, "csrf_token") {
            match p_string_at(&v, i3) {
                None => {
                    return Err(ApiError::JsonError(String::from_str("malformed token value")));
                },
                Some(p) => {
                    acc.csrf_token = Some(chars_to_string(&p.0));
                    i4 = p.1;
                },
            }
        } else if crate::strutil::chars_eq_str(&key, "logged_in") {
            match p_bool_at(&v, i3) {
                None => {
                    return Err(ApiError::JsonError(String::from_str("malformed flag value")));
                },
                Some(p) => {
                    acc.logged_in = Some(p.0);
                    i4 = p.1;
                },
            }
        } else if crate::strutil::chars_eq_str(&key, "timestamp") {
            match p_int_at(&v, i3) {
                None => {
                    return Err(ApiError::JsonError(String::from_str("malformed timestamp")));
                },
                Some(p) => {
                    acc.timestamp = Some(p.0);
                    i4 = p.1;
                },
            }
        } else {
            proof {
                assert(session_field_step(v@, i3 as int, acc_pre, key@) is None);
            }
            return Err(ApiError::JsonError(String::from_str("unknown field name")));
        }
        proof {
            assert(session_field_step(v@, i3 as int, acc_pre, key@) == Some(
                (session_acc_view(acc), i4 as int),
            ));
        }
        let i5 = p_skip_ws(&v, i4);
        if i5 < v.len() && v[i5] == ',' {
            if fuel == 0 {
                return Err(ApiError::JsonError(String::from_str("too many fields")));
            }
            j = i5 + 1;
            fuel = fuel - 1;
        } else if i5 < v.len() && v[i5] == '}' {
            let SessionAcc { cookies, csrf_token, logged_in, timestamp } = acc;
            match (cookies, csrf_token, logged_in, timestamp) {
                (Some(cs), Some(tok), Some(li), Some(ts)) => {
                    let data = CacheData {
                        cookies: cs,
                        csrf_token: tok,
                        logged_in: li,
                        timestamp: ts,
                    };
                    let j2 = p_skip_ws(&v, i5 + 1);
                    if j2 == v.len() {
                        return Ok(data);
                    } else {
                        return Err(
                            ApiError::JsonError(
                                String::from_str("unexpected text after the document"),
                            ),
                        );
                    }
                },
                _ => {
                    return Err(ApiError::JsonError(String::from_str("a field is missing")));
                },
            }
        } else {
            return Err(ApiError::JsonError(String::from_str("expected a comma or brace")));
        }
    }
}

// ---------------------------------------------------------------------------
// The round trip: parsing a rendered session yields the session back
// ---------------------------------------------------------------------------

proof fn lemma_matches_split(s: Seq<char>, i: int, w1: Seq<char>, w2: Seq<char>)
    requires
        matches_at(s, i, w1 + w2),
    ensures
        matches_at(s, i, w1),
        matches_at(s, i + w1.len(), w2),
{
    let w = w1 + w2;
    assert(s.subrange(i, i + w1.len() as int) =~= w1) by {
        assert(forall|k: int|
            0 <= k < w1.len() ==> s.subrange(i, i + w.len() as int)[k] == #[trigger] w[k]);
        assert(forall|k: int| 0 <= k < w1.len() ==> w[k] == w1[k]);
    }
    assert(s.subrange(i + w1.len(), i + w1.len() + w2.len() as int) =~= w2) by {
        assert(forall|k: int|
            0 <= k < w2.len() ==> s.subrange(i, i + w.len() as int)[w1.len() + k]
                == #[trigger] w2[k]);
    }
}

proof fn lemma_matches_char(s: Seq<char>, i: int, w: Seq<char>, k: int)
    requires
        matches_at(s, i, w),
        0 <= k < w.len(),
    ensures
        s[i + k] == w[k],
{
    assert(s.subrange(i, i + w.len() as int)[k] == w[k]);
}

/// Escaped text never contains a bare quote, so the string parser cannot
/// stop early; this is implicit in the step-by-step proof below.
proof fn lemma_parse_string_render(s: Seq<char>, i: int, x: Seq<char>)
    requires
        matches_at(s, i, render_string(x)),
    ensures
        parse_string_at(s, i) == Some((x, i + render_string(x).len())),
{
    assert(render_string(x) == seq!['"'] + (escape(x) + seq!['"'])) by {
        assert(seq!['"'] + escape(x) + seq!['"'] =~= seq!['"'] + (escape(x) + seq!['"']));
    }
    lemma_matches_split(s, i, seq!['"'], escape(x) + seq!['"']);
    lemma_matches_char(s, i, seq!['"'], 0);
    assert(s[i] == '"');
    lemma_parse_body_escape(s, i + 1, x);
    assert(parse_string_at(s, i) == parse_string_body(s, i + 1));
}

proof fn lemma_parse_body_escape(s: Seq<char>, j: int, x: Seq<char>)
    requires
        matches_at(s, j, escape(x) + seq!['"']),
    ensures
        parse_string_body(s, j) == Some((x, j + escape(x).len() + 1)),
    decreases x.len(),
{
    if x.len() == 0 {
        assert(escape(x) + seq!['"'] =~= seq!['"']);
        lemma_matches_char(s, j, seq!['"'], 0);
        assert(s[j] == '"');
        assert(parse_string_body(s, j) == Some((Seq::<char>::empty(), j + 1)));
        assert(x =~= Seq::<char>::empty());
    } else {
        let c = x[0];
        let x1 = x.drop_first();
        assert(escape(x) == escape_char(c) + escape(x1));
        assert(escape(x) + seq!['"'] =~= escape_char(c) + (escape(x1) + seq!['"']));
        lemma_matches_split(s, j, escape_char(c), escape(x1) + seq!['"']);
        let j2 = j + escape_char(c).len();
        lemma_parse_body_escape(s, j2, x1);
        if c == '"' || c == '\\' || c == '\n' || c == '\r' || c == '\t' {
            lemma_matches_char(s, j, escape_char(c), 0);
            lemma_matches_char(s, j, escape_char(c), 1);
            assert(s[j] == '\\');
            assert(j + 1 < s.len());
            assert(unescape_char(s[j + 1]) == Some(c));
            assert(parse_string_body(s, j) == Some((seq![c] + x1, j2 + escape(x1).len() + 1)));
            assert(seq![c] + x1 =~= x);
        } else {
            lemma_matches_char(s, j, escape_char(c), 0);
            assert(s[j] == c);
            assert(s[j] != '"' && s[j] != '\\');
            assert(parse_string_body(s, j) == Some((seq![c] + x1, j2 + escape(x1).len() + 1)));
            assert(seq![c] + x1 =~= x);
        }
    }
}

proof fn lemma_parse_bool_render(s: Seq<char>, i: int, b: bool)
    requires
        matches_at(s, i, render_bool(b)),
    ensures
        parse_bool_at(s, i) == Some((b, i + render_bool(b).len())),
{
    if b {
        assert(matches_at(s, i, lit_true()));
    } else {
        assert(matches_at(s, i, lit_false()));
        lemma_matches_char(s, i, lit_false(), 0);
        if matches_at(s, i, lit_true()) {
            lemma_matches_char(s, i, lit_true(), 0);
        }
    }
}

spec fn pow10(k: nat) -> nat
    decreases k,
{
    if k == 0 {
        1
    } else {
        10 * pow10((k - 1) as nat)
    }
}

proof fn lemma_dec_digits_are_digits(n: nat)
    ensures
        dec_digits(n).len() >= 1,
        forall|k: int| 0 <= k < dec_digits(n).len() ==> is_digit(#[trigger] dec_digits(n)[k]),
    decreases n,
{
    if n < 10 {
        assert(is_digit(char_of_digit(n)));
    } else {
        lemma_dec_digits_are_digits(n / 10);
        assert(is_digit(char_of_digit(n % 10)));
        assert(forall|k: int|
            0 <= k < dec_digits(n / 10).len() ==> dec_digits(n)[k] == #[trigger] dec_digits(
                n / 10,
            )[k]);
        assert(dec_digits(n).last() == char_of_digit(n % 10));
    }
}

proof fn lemma_acc_digits_app(x: Seq<char>, y: Seq<char>, a: nat)
    ensures
        acc_digits(x + y, a) == (match acc_digits(x, a) {
            Some(m) => acc_digits(y, m),
            None => None::<nat>,
        }),
    decreases x.len(),
{
    if x.len() == 0 {
        assert(x + y =~= y);
    } else {
        assert((x + y)[0] == x[0]);
        assert((x + y).drop_first() =~= x.drop_first() + y);
        let t = u64::MAX as nat / 10;
        let u = u64::MAX as nat % 10;
        if a > t || (a == t && digit_of(x[0]) > u) {
        } else {
            lemma_acc_digits_app(x.drop_first(), y, a * 10 + digit_of(x[0]));
        }
    }
}

proof fn lemma_acc_digits_value(n: nat, a: nat)
    requires
        a * pow10(dec_digits(n).len() as nat) + n <= u64::MAX as nat,
    ensures
        acc_digits(dec_digits(n), a) == Some(
            (a * pow10(dec_digits(n).len() as nat) + n) as nat,
        ),
    decreases n,
{
    let t = u64::MAX as nat / 10;
    let u = u64::MAX as nat % 10;
    let l = dec_digits(n).len() as nat;
    if n < 10 {
        assert(l == 1);
        assert(pow10(0) == 1);
        assert(pow10(1) == 10);
        assert(digit_of(char_of_digit(n)) == n);
        assert(a * 10 + n <= u64::MAX as nat);
        assert(!(a > t || (a == t && n > u))) by {
            if a > t {
                assert(a >= t + 1);
                assert(a * 10 >= (t + 1) * 10) by (nonlinear_arith)
                    requires
                        a >= t + 1,
                ;
                assert((t + 1) * 10 > u64::MAX as nat);
            }
            if a == t && n > u {
                assert(a * 10 + n > u64::MAX as nat);
            }
        }
        assert(dec_digits(n) == seq![char_of_digit(n)]);
        assert(dec_digits(n).drop_first() =~= Seq::<char>::empty());
        assert(acc_digits(Seq::<char>::empty(), (a * 10 + n) as nat) == Some((a * 10 + n) as nat));
        assert(acc_digits(dec_digits(n), a) == Some((a * 10 + n) as nat));
    } else {
        let n1 = n / 10;
        let d = n % 10;
        let l1 = dec_digits(n1).len() as nat;
        assert(l == l1 + 1);
        assert(pow10(l) == 10 * pow10(l1));
        assert(n1 * 10 + d == n);
        assert(a * pow10(l1) * 10 == a * pow10(l)) by (nonlinear_arith)
            requires
                pow10(l) == 10 * pow10(l1),
        ;
        let m1 = a * pow10(l1) + n1;
        assert(m1 * 10 + d == a * pow10(l) + n) by (nonlinear_arith)
            requires
                m1 == a * pow10(l1) + n1,
                a * pow10(l1) * 10 == a * pow10(l),
                n1 * 10 + d == n,
        ;
        assert(m1 * 10 <= u64::MAX as nat);
        assert(m1 <= t) by {
            if m1 > t {
                assert(m1 >= t + 1);
                assert(m1 * 10 >= (t + 1) * 10) by (nonlinear_arith)
                    requires
                        m1 >= t + 1,
                ;
                assert((t + 1) * 10 > u64::MAX as nat);
            }
        }
        assert(a * pow10(l1) + n1 <= u64::MAX as nat);
        lemma_acc_digits_value(n1, a);
        lemma_acc_digits_app(dec_digits(n1), seq![char_of_digit(d)], a);
        assert(dec_digits(n) == dec_digits(n1) + seq![char_of_digit(d)]);
        assert(acc_digits(dec_digits(n), a) == acc_digits(seq![char_of_digit(d)], m1));
        assert(digit_of(char_of_digit(d)) == d);
        assert(!(m1 > t || (m1 == t && d > u))) by {
            if m1 == t && d > u {
                assert(m1 * 10 + d > u64::MAX as nat);
                assert(m1 * 10 + d == a * pow10(l) + n);
            }
        }
        assert(seq![char_of_digit(d)].drop_first() =~= Seq::<char>::empty());
        assert(acc_digits(Seq::<char>::empty(), (m1 * 10 + d) as nat) == Some(
            (m1 * 10 + d) as nat,
        ));
        assert(acc_digits(seq![char_of_digit(d)], m1) == Some((m1 * 10 + d) as nat));
    }
}

proof fn lemma_parse_int_render(s: Seq<char>, i: int, v: int)
    requires
        matches_at(s, i, render_int(v)),
        -0x8000_0000_0000_0000 <= v <= 0x7FFF_FFFF_FFFF_FFFF,
        i + render_int(v).len() < s.len() ==> !is_digit(s[i + render_int(v).len()]),
    ensures
        parse_int_at(s, i) == Some((v, i + render_int(v).len())),
{
    let w = render_int(v);
    if v < 0 {
        let n = (-v) as nat;
        assert(w == seq!['-'] + dec_digits(n));
        lemma_matches_split(s, i, seq!['-'], dec_digits(n));
        lemma_matches_char(s, i, seq!['-'], 0);
        assert(s[i] == '-');
        let i1 = i + 1;
        let ds = dec_digits(n);
        lemma_dec_digits_are_digits(n);
        assert forall|k: int| i1 <= k < i1 + ds.len() implies is_digit(s[k]) by {
            let kk = k - i1;
            assert(s.subrange(i1, i1 + ds.len() as int)[kk] == ds[kk]);
            assert(is_digit(ds[kk]));
        }
        lemma_digits_run(s, i1, i1 + ds.len() as int);
        assert(s.subrange(i1, i1 + ds.len() as int) == ds);
        assert(pow10(0) == 1);
        assert(0 * pow10(ds.len() as nat) == 0) by (nonlinear_arith);
        lemma_acc_digits_value(n, 0);
        assert(acc_digits(ds, 0) == Some(n));
        assert(n <= 0x8000_0000_0000_0000);
        assert(-(n as int) == v);
    } else {
        let n = v as nat;
        assert(w == dec_digits(n));
        let ds = dec_digits(n);
        lemma_dec_digits_are_digits(n);
        assert(s[i] == ds[0]) by {
            lemma_matches_char(s, i, ds, 0);
        }
        assert(is_digit(s[i]));
        assert(s[i] != '-');
        assert forall|k: int| i <= k < i + ds.len() implies is_digit(s[k]) by {
            let kk = k - i;
            assert(s.subrange(i, i + ds.len() as int)[kk] == ds[kk]);
            assert(is_digit(ds[kk]));
        }
        lemma_digits_run(s, i, i + ds.len() as int);
        assert(s.subrange(i, i + ds.len() as int) == ds);
        assert(pow10(0) == 1);
        assert(0 * pow10(ds.len() as nat) == 0) by (nonlinear_arith);
        lemma_acc_digits_value(n, 0);
        assert(acc_digits(ds, 0) == Some(n));
        assert(n <= 0x7FFF_FFFF_FFFF_FFFF);
    }
}

proof fn lemma_field_prefix(s: Seq<char>, p: int, key: Seq<char>, vfirst: char)
    requires
        matches_at(s, p, render_string(key) + seq![':', ' ']),
        p + render_string(key).len() + 2 < s.len(),
        s[p + render_string(key).len() + 2] == vfirst,
        !is_ws_char(vfirst),
    ensures
        skip_ws(s, p) == p,
        parse_string_at(s, p) == Some((key, p + render_string(key).len())),
        skip_ws(s, p + render_string(key).len()) == p + render_string(key).len(),
        s[p + render_string(key).len()] == ':',
        skip_ws(s, p + render_string(key).len() + 1) == p + render_string(key).len() + 2,
{
    let rs = render_string(key);
    lemma_matches_split(s, p, rs, seq![':', ' ']);
    lemma_parse_string_render(s, p, key);
    lemma_matches_char(s, p, rs, 0);
    assert(rs[0] == '"');
    lemma_skip_ws_run(s, p, p);
    let q = p + rs.len();
    lemma_matches_char(s, q, seq![':', ' '], 0);
    lemma_matches_char(s, q, seq![':', ' '], 1);
    assert(s[q] == ':');
    assert(s[q + 1] == ' ');
    lemma_skip_ws_run(s, q, q);
    lemma_skip_ws_run(s, q + 1, q + 2);
}

proof fn lemma_field_str_at(s: Seq<char>, p: int, key: Seq<char>, val: Seq<char>)
    requires
        matches_at(s, p, field_str(key, val)),
    ensures
        skip_ws(s, p) == p,
        parse_string_at(s, p) == Some((key, p + render_string(key).len())),
        skip_ws(s, p + render_string(key).len()) == p + render_string(key).len(),
        s[p + render_string(key).len()] == ':',
        skip_ws(s, p + render_string(key).len() + 1) == p + render_string(key).len() + 2,
        parse_string_at(s, p + render_string(key).len() + 2) == Some(
            (val, p + field_str(key, val).len()),
        ),
{
    let rs = render_string(key);
    let rv = render_string(val);
    assert(field_str(key, val) == (rs + seq![':', ' ']) + rv) by {
        assert(rs + seq![':', ' '] + rv =~= (rs + seq![':', ' ']) + rv);
    }
    lemma_matches_split(s, p, rs + seq![':', ' '], rv);
    let q = p + rs.len();
    lemma_matches_char(s, q + 2, rv, 0);
    assert(rv[0] == '"');
    lemma_field_prefix(s, p, key, '"');
    lemma_parse_string_render(s, q + 2, val);
}

proof fn lemma_field_bool_at(s: Seq<char>, p: int, key: Seq<char>, b: bool)
    requires
        matches_at(s, p, field_bool(key, b)),
    ensures
        skip_ws(s, p) == p,
        parse_string_at(s, p) == Some((key, p + render_string(key).len())),
        skip_ws(s, p + render_string(key).len()) == p + render_string(key).len(),
        s[p + render_string(key).len()] == ':',
        skip_ws(s, p + render_string(key).len() + 1) == p + render_string(key).len() + 2,
        parse_bool_at(s, p + render_string(key).len() + 2) == Some(
            (b, p + field_bool(key, b).len()),
        ),
{
    let rs = render_string(key);
    let rv = render_bool(b);
    assert(field_bool(key, b) == (rs + seq![':', ' ']) + rv) by {
        assert(rs + seq![':', ' '] + rv =~= (rs + seq![':', ' ']) + rv);
    }
    lemma_matches_split(s, p, rs + seq![':', ' '], rv);
    let q = p + rs.len();
    lemma_matches_char(s, q + 2, rv, 0);
    assert(if b {
        rv[0] == 't'
    } else {
        rv[0] == 'f'
    });
    lemma_field_prefix(
        s,
        p,
        key,
        if b {
            't'
        } else {
            'f'
        },
    );
    lemma_parse_bool_render(s, q + 2, b);
}

proof fn lemma_cookie_keys_distinct()
    ensures
        k_name() != k_value(),
        k_name() != k_domain(),
        k_name() != k_path(),
        k_name() != k_http_only(),
        k_name() != k_secure(),
        k_value() != k_domain(),
        k_value() != k_path(),
        k_value() != k_http_only(),
        k_value() != k_secure(),
        k_domain() != k_path(),
        k_domain() != k_http_only(),
        k_domain() != k_secure(),
        k_path() != k_http_only(),
        k_path() != k_secure(),
        k_http_only() != k_secure(),
{
    assert(k_name()[0] == 'n' && k_path()[0] == 'p');
    assert(k_domain()[0] == 'd' && k_secure()[0] == 's');
}

#[verifier::rlimit(100)]
proof fn lemma_parse_cookie_render(s: Seq<char>, i: int, c: CookieView)
    requires
        matches_at(s, i, render_cookie(c)),
    ensures
        parse_cookie_at(s, i) == Some((c, i + render_cookie(c).len())),
{
    lemma_cookie_keys_distinct();
    let sep = seq![',', ' '];
    let f1 = field_str(k_name(), c.name);
    let f2 = field_str(k_value(), c.value);
    let f3 = field_str(k_domain(), c.domain);
    let f4 = field_str(k_path(), c.path);
    let f5 = field_bool(k_http_only(), c.http_only);
    let f6 = field_bool(k_secure(), c.secure);
    let p12 = seq!['{'] + f1 + sep + f2 + sep + f3 + sep + f4 + sep + f5 + sep + f6;
    lemma_matches_split(s, i, p12, seq!['}']);
    let p11 = seq!['{'] + f1 + sep + f2 + sep + f3 + sep + f4 + sep + f5 + sep;
    lemma_matches_split(s, i, p11, f6);
    let p10 = seq!['{'] + f1 + sep + f2 + sep + f3 + sep + f4 + sep + f5;
    lemma_matches_split(s, i, p10, sep);
    let p9 = seq!['{'] + f1 + sep + f2 + sep + f3 + sep + f4 + sep;
    lemma_matches_split(s, i, p9, f5);
    let p8 = seq!['{'] + f1 + sep + f2 + sep + f3 + sep + f4;
    lemma_matches_split(s, i, p8, sep);
    let p7 = seq!['{'] + f1 + sep + f2 + sep + f3 + sep;
    lemma_matches_split(s, i, p7, f4);
    let p6 = seq!['{'] + f1 + sep + f2 + sep + f3;
    lemma_matches_split(s, i, p6, sep);
    let p5 = seq!['{'] + f1 + sep + f2 + sep;
    lemma_matches_split(s, i, p5, f3);
    let p4 = seq!['{'] + f1 + sep + f2;
    lemma_matches_split(s, i, p4, sep);
    let p3 = seq!['{'] + f1 + sep;
    lemma_matches_split(s, i, p3, f2);
    let p2 = seq!['{'] + f1;
    lemma_matches_split(s, i, p2, sep);
    let p1 = seq!['{'];
    lemma_matches_split(s, i, p1, f1);
    lemma_matches_char(s, i, p1, 0);
    assert(s[i] == '{');

    let a1 = i + 1;
    let a2 = a1 + f1.len() + 2;
    let a3 = a2 + f2.len() + 2;
    let a4 = a3 + f3.len() + 2;
    let a5 = a4 + f4.len() + 2;
    let a6 = a5 + f5.len() + 2;
    let close = a6 + f6.len();

    lemma_field_str_at(s, a1, k_name(), c.name);
    lemma_field_str_at(s, a2, k_value(), c.value);
    lemma_field_str_at(s, a3, k_domain(), c.domain);
    lemma_field_str_at(s, a4, k_path(), c.path);
    lemma_field_bool_at(s, a5, k_http_only(), c.http_only);
    lemma_field_bool_at(s, a6, k_secure(), c.secure);

    // separators and the closing brace
    lemma_matches_char(s, a1 + f1.len(), sep, 0);
    lemma_matches_char(s, a1 + f1.len(), sep, 1);
    lemma_matches_char(s, a2 + f2.len(), sep, 0);
    lemma_matches_char(s, a2 + f2.len(), sep, 1);
    lemma_matches_char(s, a3 + f3.len(), sep, 0);
    lemma_matches_char(s, a3 + f3.len(), sep, 1);
    lemma_matches_char(s, a4 + f4.len(), sep, 0);
    lemma_matches_char(s, a4 + f4.len(), sep, 1);
    lemma_matches_char(s, a5 + f5.len(), sep, 0);
    lemma_matches_char(s, a5 + f5.len(), sep, 1);
    lemma_matches_char(s, close, seq!['}'], 0);
    assert(s[close] == '}');

    lemma_skip_ws_run(s, a1 + f1.len(), a1 + f1.len());
    lemma_skip_ws_run(s, a1 + f1.len() + 1, a2);
    lemma_skip_ws_run(s, a2 + f2.len(), a2 + f2.len());
    lemma_skip_ws_run(s, a2 + f2.len() + 1, a3);
    lemma_skip_ws_run(s, a3 + f3.len(), a3 + f3.len());
    lemma_skip_ws_run(s, a3 + f3.len() + 1, a4);
    lemma_skip_ws_run(s, a4 + f4.len(), a4 + f4.len());
    lemma_skip_ws_run(s, a4 + f4.len() + 1, a5);
    lemma_skip_ws_run(s, a5 + f5.len(), a5 + f5.len());
    lemma_skip_ws_run(s, a5 + f5.len() + 1, a6);
    lemma_skip_ws_run(s, close, close);

    let acc0 = empty_cookie_acc();
    let acc1 = PartialCookie { name: Some(c.name), ..acc0 };
    let acc2 = PartialCookie { value: Some(c.value), ..acc1 };
    let acc3 = PartialCookie { domain: Some(c.domain), ..acc2 };
    let acc4 = PartialCookie { path: Some(c.path), ..acc3 };
    let acc5 = PartialCookie { http_only: Some(c.http_only), ..acc4 };
    let acc6 = PartialCookie { secure: Some(c.secure), ..acc5 };

    assert(cookie_field_step(s, a1 + render_string(k_name()).len() + 2, acc0, k_name()) == Some(
        (acc1, a1 + f1.len()),
    ));
    assert(parse_cookie_fields(s, i + 1, acc0, 5) == parse_cookie_fields(s, a1 + f1.len() + 1, acc1, 4));
    assert(parse_cookie_fields(s, a1 + f1.len() + 1, acc1, 4) == parse_cookie_fields(
        s,
        a2 + f2.len() + 1,
        acc2,
        3,
    ));
    assert(parse_cookie_fields(s, a2 + f2.len() + 1, acc2, 3) == parse_cookie_fields(
        s,
        a3 + f3.len() + 1,
        acc3,
        2,
    ));
    assert(parse_cookie_fields(s, a3 + f3.len() + 1, acc3, 2) == parse_cookie_fields(
        s,
        a4 + f4.len() + 1,
        acc4,
        1,
    ));
    assert(parse_cookie_fields(s, a4 + f4.len() + 1, acc4, 1) == parse_cookie_fields(
        s,
        a5 + f5.len() + 1,
        acc5,
        0,
    ));
    assert(finish_cookie(acc6) == Some(c));
    assert(parse_cookie_fields(s, a5 + f5.len() + 1, acc5, 0) == Some((c, close + 1)));
    assert(parse_cookie_at(s, i) == Some((c, close + 1)));
    assert(close + 1 == i + render_cookie(c).len());
}

proof fn lemma_matches_join(s: Seq<char>, i: int, w1: Seq<char>, w2: Seq<char>)
    requires
        matches_at(s, i, w1),
        matches_at(s, i + w1.len(), w2),
    ensures
        matches_at(s, i, w1 + w2),
{
    let w = w1 + w2;
    assert(s.subrange(i, i + w.len() as int) =~= w) by {
        assert(forall|k: int|
            0 <= k < w1.len() ==> s.subrange(i, i + w1.len() as int)[k] == #[trigger] w1[k]);
        assert(forall|k: int|
            0 <= k < w2.len() ==> s.subrange(i + w1.len(), i + w1.len() + w2.len() as int)[k]
                == #[trigger] w2[k]);
    }
}

proof fn lemma_items_front(cs: Seq<CookieView>)
    requires
        cs.len() >= 2,
    ensures
        render_cookie_items(cs) == render_cookie(cs[0]) + seq![',', ' '] + render_cookie_items(
            cs.drop_first(),
        ),
    decreases cs.len(),
{
    if cs.len() == 2 {
        assert(cs.drop_last() =~= seq![cs[0]]);
        assert(cs.drop_first() =~= seq![cs[1]]);
        assert(render_cookie_items(seq![cs[0]]) == render_cookie(cs[0]));
        assert(render_cookie_items(seq![cs[1]]) == render_cookie(cs[1]));
    } else {
        lemma_items_front(cs.drop_last());
        assert(cs.drop_last()[0] == cs[0]);
        assert(cs.drop_last().drop_first() =~= cs.drop_first().drop_last());
        assert(cs.drop_first().last() == cs.last());
        assert(cs.drop_first().len() >= 2);
        assert(render_cookie_items(cs) == render_cookie_items(cs.drop_last()) + seq![',', ' ']
            + render_cookie(cs.last()));
        assert(render_cookie_items(cs.drop_first()) == render_cookie_items(
            cs.drop_first().drop_last(),
        ) + seq![',', ' '] + render_cookie(cs.drop_first().last()));
        assert((render_cookie(cs[0]) + seq![',', ' '] + render_cookie_items(
            cs.drop_first().drop_last(),
        )) + seq![',', ' '] + render_cookie(cs.last()) =~= render_cookie(cs[0]) + seq![',', ' ']
            + (render_cookie_items(cs.drop_first().drop_last()) + seq![',', ' '] + render_cookie(
            cs.last(),
        )));
    }
}

proof fn lemma_items_len(cs: Seq<CookieView>)
    ensures
        render_cookie_items(cs).len() >= cs.len(),
    decreases cs.len(),
{
    if cs.len() > 1 {
        lemma_items_len(cs.drop_last());
    }
}

#[verifier::rlimit(100)]
proof fn lemma_parse_items_render(
    s: Seq<char>,
    i: int,
    istart: int,
    cs: Seq<CookieView>,
    acc: Seq<CookieView>,
    fuel: nat,
)
    requires
        0 <= i <= istart,
        skip_ws(s, i) == istart,
        matches_at(s, istart, render_cookie_items(cs) + seq![']']),
        cs.len() >= 1,
        fuel >= cs.len(),
    ensures
        parse_cookie_items(s, i, acc, fuel) == Some(
            (acc + cs, istart + render_cookie_items(cs).len() + 1),
        ),
    decreases cs.len(),
{
    if cs.len() == 1 {
        assert(render_cookie_items(cs) == render_cookie(cs[0]));
        lemma_matches_split(s, istart, render_cookie(cs[0]), seq![']']);
        lemma_parse_cookie_render(s, istart, cs[0]);
        let end = istart + render_cookie(cs[0]).len();
        lemma_matches_char(s, end, seq![']'], 0);
        assert(s[end] == ']');
        lemma_skip_ws_run(s, end, end);
        assert(acc.push(cs[0]) =~= acc + cs);
    } else {
        lemma_items_front(cs);
        let rc = render_cookie(cs[0]);
        let tail = render_cookie_items(cs.drop_first());
        assert(rc + seq![',', ' '] + tail + seq![']'] =~= (rc + seq![',', ' ']) + (tail
            + seq![']']));
        lemma_matches_split(s, istart, rc + seq![',', ' '], tail + seq![']']);
        lemma_matches_split(s, istart, rc, seq![',', ' ']);
        lemma_parse_cookie_render(s, istart, cs[0]);
        let end = istart + rc.len();
        lemma_matches_char(s, end, seq![',', ' '], 0);
        lemma_matches_char(s, end, seq![',', ' '], 1);
        assert(s[end] == ',');
        assert(s[end + 1] == ' ');
        lemma_skip_ws_run(s, end, end);
        assert(matches_at(s, end + 2, tail + seq![']']));
        assert(tail.len() >= 1) by {
            lemma_items_len(cs.drop_first());
        }
        assert(s[end + 2] == (tail + seq![']'])[0]) by {
            lemma_matches_char(s, end + 2, tail + seq![']'], 0);
        }
        assert(tail[0] == '{') by {
            let c1 = cs.drop_first()[0];
            if cs.drop_first().len() == 1 {
                assert(tail == render_cookie(c1));
            } else {
                lemma_items_front(cs.drop_first());
            }
            assert(render_cookie(c1)[0] == '{');
        }
        assert((tail + seq![']'])[0] == tail[0]);
        lemma_skip_ws_run(s, end + 1, end + 2);
        lemma_parse_items_render(s, end + 1, end + 2, cs.drop_first(), acc.push(cs[0]), (fuel
            - 1) as nat);
        assert(acc.push(cs[0]) + cs.drop_first() =~= acc + cs);
        assert(parse_cookie_items(s, i, acc, fuel) == parse_cookie_items(
            s,
            end + 1,
            acc.push(cs[0]),
            (fuel - 1) as nat,
        ));
    }
}

#[verifier::rlimit(100)]
proof fn lemma_parse_array_render(s: Seq<char>, i: int, cs: Seq<CookieView>)
    requires
        matches_at(s, i, seq!['['] + render_cookie_items(cs) + seq![']']),
    ensures
        parse_cookie_array(s, i) == Some(
            (cs, i + render_cookie_items(cs).len() + 2),
        ),
{
    let its = render_cookie_items(cs);
    assert(seq!['['] + its + seq![']'] =~= seq!['['] + (its + seq![']']));
    lemma_matches_split(s, i, seq!['['], its + seq![']']);
    lemma_matches_char(s, i, seq!['['], 0);
    assert(s[i] == '[');
    if cs.len() == 0 {
        assert(its =~= Seq::<char>::empty());
        assert(its + seq![']'] =~= seq![']']);
        lemma_matches_char(s, i + 1, seq![']'], 0);
        assert(s[i + 1] == ']');
        lemma_skip_ws_run(s, i + 1, i + 1);
    } else {
        assert(s[i + 1] == (its + seq![']'])[0]) by {
            lemma_items_len(cs);
            lemma_matches_char(s, i + 1, its + seq![']'], 0);
        }
        assert(its[0] == '{') by {
            if cs.len() == 1 {
                assert(its == render_cookie(cs[0]));
            } else {
                lemma_items_front(cs);
            }
            assert(render_cookie(cs[0])[0] == '{');
        }
        assert((its + seq![']'])[0] == its[0]) by {
            lemma_items_len(cs);
        }
        lemma_skip_ws_run(s, i + 1, i + 1);
        assert(!(skip_ws(s, i + 1) < s.len() && s[skip_ws(s, i + 1)] == ']'));
        assert(s.len() as nat >= cs.len()) by {
            lemma_items_len(cs);
        }
        lemma_parse_items_render(s, i + 1, i + 1, cs, Seq::empty(), s.len() as nat);
        assert(Seq::<CookieView>::empty() + cs =~= cs);
    }
}

proof fn lemma_session_keys_distinct()
    ensures
        k_cookies() != k_csrf_token(),
        k_cookies() != k_logged_in(),
        k_cookies() != k_timestamp(),
        k_csrf_token() != k_logged_in(),
        k_csrf_token() != k_timestamp(),
        k_logged_in() != k_timestamp(),
{
    assert(k_logged_in()[0] == 'l' && k_timestamp()[0] == 't');
}

proof fn lemma_cookies_field_at(s: Seq<char>, p: int, cs: Seq<CookieView>)
    requires
        matches_at(s, p, cookies_field(cs)),
    ensures
        skip_ws(s, p) == p,
        parse_string_at(s, p) == Some((k_cookies(), p + render_string(k_cookies()).len())),
        skip_ws(s, p + render_string(k_cookies()).len()) == p + render_string(k_cookies()).len(),
        s[p + render_string(k_cookies()).len()] == ':',
        skip_ws(s, p + render_string(k_cookies()).len() + 1) == p + render_string(
            k_cookies(),
        ).len() + 2,
        parse_cookie_array(s, p + render_string(k_cookies()).len() + 2) == Some(
            (cs, p + cookies_field(cs).len()),
        ),
{
    let rsc = render_string(k_cookies());
    let arr = seq!['['] + render_cookie_items(cs) + seq![']'];
    assert(cookies_field(cs) == (rsc + seq![':', ' ']) + arr) by {
        assert(rsc + seq![':', ' ', '['] + render_cookie_items(cs) + seq![']'] =~= (rsc + seq![
            ':',
            ' ',
        ]) + (seq!['['] + render_cookie_items(cs) + seq![']']));
    }
    lemma_matches_split(s, p, rsc + seq![':', ' '], arr);
    let q = p + rsc.len();
    lemma_matches_char(s, q + 2, arr, 0);
    assert(arr[0] == '[');
    lemma_field_prefix(s, p, k_cookies(), '[');
    lemma_parse_array_render(s, q + 2, cs);
}

proof fn lemma_timestamp_field_at(s: Seq<char>, p: int, t: int)
    requires
        matches_at(s, p, timestamp_field(t)),
        -0x8000_0000_0000_0000 <= t <= 0x7FFF_FFFF_FFFF_FFFF,
        p + timestamp_field(t).len() < s.len() ==> !is_digit(s[p + timestamp_field(t).len()]),
    ensures
        skip_ws(s, p) == p,
        parse_string_at(s, p) == Some((k_timestamp(), p + render_string(k_timestamp()).len())),
        skip_ws(s, p + render_string(k_timestamp()).len()) == p + render_string(
            k_timestamp(),
        ).len(),
        s[p + render_string(k_timestamp()).len()] == ':',
        skip_ws(s, p + render_string(k_timestamp()).len() + 1) == p + render_string(
            k_timestamp(),
        ).len() + 2,
        parse_int_at(s, p + render_string(k_timestamp()).len() + 2) == Some(
            (t, p + timestamp_field(t).len()),
        ),
{
    let rss = render_string(k_timestamp());
    let iv = render_int(t);
    assert(timestamp_field(t) == (rss + seq![':', ' ']) + iv) by {
        assert(rss + seq![':', ' '] + iv =~= (rss + seq![':', ' ']) + iv);
    }
    lemma_matches_split(s, p, rss + seq![':', ' '], iv);
    let q = p + rss.len();
    lemma_matches_char(s, q + 2, iv, 0);
    if t < 0 {
        assert(iv[0] == '-');
        lemma_field_prefix(s, p, k_timestamp(), '-');
    } else {
        lemma_dec_digits_are_digits(t as nat);
        assert(is_digit(iv[0]));
        assert(!is_ws_char(iv[0]));
        lemma_field_prefix(s, p, k_timestamp(), iv[0]);
    }
    lemma_parse_int_render(s, q + 2, t);
}

#[verifier::rlimit(100)]
proof fn lemma_session_peels(v: SessionView)
    ensures
        ({
            let s = spec_render_session(v);
            let q1 = 4int;
            let e1 = q1 + cookies_field(v.cookies).len();
            let q2 = e1 + 4;
            let e2 = q2 + field_str(k_csrf_token(), v.csrf_token).len();
            let q3 = e2 + 4;
            let e3 = q3 + field_bool(k_logged_in(), v.logged_in).len();
            let q4 = e3 + 4;
            let e4 = q4 + timestamp_field(v.timestamp).len();
            &&& matches_at(s, 0, seq!['{', '\n', ' ', ' '])
            &&& matches_at(s, q1, cookies_field(v.cookies))
            &&& matches_at(s, e1, field_sep())
            &&& matches_at(s, q2, field_str(k_csrf_token(), v.csrf_token))
            &&& matches_at(s, e2, field_sep())
            &&& matches_at(s, q3, field_bool(k_logged_in(), v.logged_in))
            &&& matches_at(s, e3, field_sep())
            &&& matches_at(s, q4, timestamp_field(v.timestamp))
            &&& matches_at(s, e4, seq!['\n', '}'])
            &&& e4 + 2 == s.len()
        }),
{
    let s = spec_render_session(v);
    assert(matches_at(s, 0, s)) by {
        assert(s.subrange(0, s.len() as int) =~= s);
    }
    let h1 = seq!['{', '\n', ' ', ' '];
    let cf = cookies_field(v.cookies);
    let fs = field_sep();
    let f2 = field_str(k_csrf_token(), v.csrf_token);
    let f3 = field_bool(k_logged_in(), v.logged_in);
    let f4 = timestamp_field(v.timestamp);
    let tl = seq!['\n', '}'];
    let p8 = h1 + cf + fs + f2 + fs + f3 + fs + f4;
    lemma_matches_split(s, 0, p8, tl);
    let p7 = h1 + cf + fs + f2 + fs + f3 + fs;
    lemma_matches_split(s, 0, p7, f4);
    let p6 = h1 + cf + fs + f2 + fs + f3;
    lemma_matches_split(s, 0, p6, fs);
    let p5 = h1 + cf + fs + f2 + fs;
    lemma_matches_split(s, 0, p5, f3);
    let p4 = h1 + cf + fs + f2;
    lemma_matches_split(s, 0, p4, fs);
    let p3 = h1 + cf + fs;
    lemma_matches_split(s, 0, p3, f2);
    let p2 = h1 + cf;
    lemma_matches_split(s, 0, p2, fs);
    lemma_matches_split(s, 0, h1, cf);
}

proof fn lemma_sep_at(s: Seq<char>, e: int)
    requires
        matches_at(s, e, field_sep()),
        e + 4 < s.len() ==> !is_ws_char(s[e + 4]),
    ensures
        s[e] == ',',
        skip_ws(s, e) == e,
        skip_ws(s, e + 1) == e + 4,
{
    lemma_matches_char(s, e, field_sep(), 0);
    lemma_matches_char(s, e, field_sep(), 1);
    lemma_matches_char(s, e, field_sep(), 2);
    lemma_matches_char(s, e, field_sep(), 3);
    lemma_skip_ws_run(s, e, e);
    lemma_skip_ws_run(s, e + 1, e + 4);
}

#[verifier::rlimit(100)]
#[verifier::spinoff_prover]
proof fn lemma_session_segments(v: SessionView)
    ensures
        ({
            let s = spec_render_session(v);
            let q1 = 4int;
            let e1 = q1 + cookies_field(v.cookies).len();
            let q2 = e1 + 4;
            let e2 = q2 + field_str(k_csrf_token(), v.csrf_token).len();
            let q3 = e2 + 4;
            let e3 = q3 + field_bool(k_logged_in(), v.logged_in).len();
            let q4 = e3 + 4;
            let e4 = q4 + timestamp_field(v.timestamp).len();
            &&& s[0] == '{'
            &&& skip_ws(s, 0) == 0
            &&& skip_ws(s, 1) == q1
            &&& matches_at(s, q1, cookies_field(v.cookies))
            &&& s[e1] == ','
            &&& skip_ws(s, e1) == e1
            &&& skip_ws(s, e1 + 1) == q2
            &&& matches_at(s, q2, field_str(k_csrf_token(), v.csrf_token))
            &&& s[e2] == ','
            &&& skip_ws(s, e2) == e2
            &&& skip_ws(s, e2 + 1) == q3
            &&& matches_at(s, q3, field_bool(k_logged_in(), v.logged_in))
            &&& s[e3] == ','
            &&& skip_ws(s, e3) == e3
            &&& skip_ws(s, e3 + 1) == q4
            &&& matches_at(s, q4, timestamp_field(v.timestamp))
            &&& s[e4] == '\n'
            &&& s[e4 + 1] == '}'
            &&& skip_ws(s, e4) == e4 + 1
            &&& e4 + 2 == s.len()
            &&& skip_ws(s, s.len() as int) == s.len()
        }),
{
    let s = spec_render_session(v);
    lemma_session_peels(v);
    let h1 = seq!['{', '\n', ' ', ' '];
    let cf = cookies_field(v.cookies);
    let fs = field_sep();
    let f2 = field_str(k_csrf_token(), v.csrf_token);
    let f3 = field_bool(k_logged_in(), v.logged_in);
    let f4 = timestamp_field(v.timestamp);
    let tl = seq!['\n', '}'];
    let q1 = 4int;
    let e1 = q1 + cf.len();
    let q2 = e1 + 4;
    let e2 = q2 + f2.len();
    let q3 = e2 + 4;
    let e3 = q3 + f3.len();
    let q4 = e3 + 4;
    let e4 = q4 + f4.len();
    lemma_matches_char(s, 0, h1, 0);
    lemma_matches_char(s, 0, h1, 1);
    lemma_matches_char(s, 0, h1, 2);
    lemma_matches_char(s, 0, h1, 3);
    lemma_matches_char(s, q1, cf, 0);
    assert(cf[0] == '"');
    lemma_skip_ws_run(s, 0, 0);
    lemma_skip_ws_run(s, 1, q1);
    lemma_matches_char(s, q2, f2, 0);
    assert(f2[0] == '"');
    lemma_sep_at(s, e1);
    lemma_matches_char(s, q3, f3, 0);
    assert(f3[0] == '"');
    lemma_sep_at(s, e2);
    lemma_matches_char(s, q4, f4, 0);
    assert(f4[0] == '"');
    lemma_sep_at(s, e3);
    lemma_matches_char(s, e4, tl, 0);
    lemma_matches_char(s, e4, tl, 1);
    lemma_skip_ws_run(s, e4, e4 + 1);
    lemma_skip_ws_run(s, s.len() as int, s.len() as int);
}

/// Round-trip persistence: parsing the rendered document of any session
/// record (with a timestamp that fits a signed 64-bit integer, as every
/// stored record's does) yields exactly that record back.
#[verifier::rlimit(100)]
pub proof fn lemma_session_round_trip(v: SessionView)
    requires
        -0x8000_0000_0000_0000 <= v.timestamp <= 0x7FFF_FFFF_FFFF_FFFF,
    ensures
        spec_parse_session(spec_render_session(v)) == Some(v),
{
    lemma_session_keys_distinct();
    lemma_session_segments(v);
    let s = spec_render_session(v);
    let rsc = render_string(k_cookies());
    let rst = render_string(k_csrf_token());
    let rsl = render_string(k_logged_in());
    let rss = render_string(k_timestamp());
    let q1 = 4int;
    let e1 = q1 + cookies_field(v.cookies).len();
    let q2 = e1 + 4;
    let e2 = q2 + field_str(k_csrf_token(), v.csrf_token).len();
    let q3 = e2 + 4;
    let e3 = q3 + field_bool(k_logged_in(), v.logged_in).len();
    let q4 = e3 + 4;
    let e4 = q4 + timestamp_field(v.timestamp).len();
    lemma_cookies_field_at(s, q1, v.cookies);
    lemma_field_str_at(s, q2, k_csrf_token(), v.csrf_token);
    lemma_field_bool_at(s, q3, k_logged_in(), v.logged_in);
    assert(!is_digit(s[e4]));
    lemma_timestamp_field_at(s, q4, v.timestamp);

    let acc0 = empty_session_acc();
    let acc1 = PartialSession { cookies: Some(v.cookies), ..acc0 };
    let acc2 = PartialSession { csrf_token: Some(v.csrf_token), ..acc1 };
    let acc3 = PartialSession { logged_in: Some(v.logged_in), ..acc2 };
    let acc4 = PartialSession { timestamp: Some(v.timestamp), ..acc3 };
    assert(session_field_step(s, q1 + rsc.len() + 2, acc0, k_cookies()) == Some((acc1, e1)));
    assert(parse_session_fields(s, 1, acc0, 3) == parse_session_fields(s, e1 + 1, acc1, 2));
    assert(session_field_step(s, q2 + rst.len() + 2, acc1, k_csrf_token()) == Some((acc2, e2)));
    assert(parse_session_fields(s, e1 + 1, acc1, 2) == parse_session_fields(s, e2 + 1, acc2, 1));
    assert(session_field_step(s, q3 + rsl.len() + 2, acc2, k_logged_in()) == Some((acc3, e3)));
    assert(parse_session_fields(s, e2 + 1, acc2, 1) == parse_session_fields(s, e3 + 1, acc3, 0));
    assert(session_field_step(s, q4 + rss.len() + 2, acc3, k_timestamp()) == Some((acc4, e4)));
    assert(finish_session(acc4) == Some(v)) by {
        assert(finish_session(acc4).unwrap() =~= v);
    }
    assert(parse_session_fields(s, e3 + 1, acc3, 0) == Some((v, e4 + 2)));
    assert(spec_parse_session(s) == Some(v));
}

} // verus!
