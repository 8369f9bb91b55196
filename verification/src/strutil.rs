//! Character-level helpers shared by the parsing and rendering code:
//! whitespace trimming, first-occurrence search, and conversions between
//! `&str` and `Vec<char>`.

use vstd::prelude::*;

verus! {

/// The whitespace characters that trimming removes.
pub open spec fn is_ws_char(c: char) -> bool {
    c == ' ' || c == '\t' || c == '\n' || c == '\r'
}

pub fn is_ws(c: char) -> (r: bool)
    ensures
        r == is_ws_char(c),
{
    c == ' ' || c == '\t' || c == '\n' || c == '\r'
}

/// `s` with leading whitespace removed.
pub open spec fn spec_trim_start(s: Seq<char>) -> Seq<char>
    decreases s.len(),
{
    if s.len() > 0 && is_ws_char(s[0]) {
        spec_trim_start(s.drop_first())
    } else {
        s
    }
}

/// `s` with trailing whitespace removed.
pub open spec fn spec_trim_end(s: Seq<char>) -> Seq<char>
    decreases s.len(),
{
    if s.len() > 0 && is_ws_char(s[s.len() - 1]) {
        spec_trim_end(s.drop_last())
    } else {
        s
    }
}

/// `s` with both leading and trailing whitespace removed.
pub open spec fn spec_trim(s: Seq<char>) -> Seq<char> {
    spec_trim_end(spec_trim_start(s))
}

proof fn lemma_trim_start_drop(s: Seq<char>, i: int)
    requires
        0 <= i <= s.len(),
        forall|k: int| 0 <= k < i ==> is_ws_char(s[k]),
    ensures
        spec_trim_start(s) == spec_trim_start(s.subrange(i, s.len() as int)),
    decreases i,
{
    if i > 0 {
        assert(is_ws_char(s[0]));
        assert(spec_trim_start(s) == spec_trim_start(s.drop_first()));
        assert(forall|k: int|
            0 <= k < i - 1 ==> is_ws_char(#[trigger] s.drop_first()[k])) by {
            assert(forall|k: int| 0 <= k < i - 1 ==> s.drop_first()[k] == s[k + 1]);
        }
        lemma_trim_start_drop(s.drop_first(), i - 1);
        assert(s.drop_first().subrange(i - 1, s.drop_first().len() as int) =~= s.subrange(
            i,
            s.len() as int,
        ));
    } else {
        assert(s.subrange(0, s.len() as int) =~= s);
    }
}

proof fn lemma_trim_start_clean(s: Seq<char>)
    requires
        s.len() > 0 ==> !is_ws_char(s[0]),
    ensures
        spec_trim_start(s) == s,
{
}

proof fn lemma_trim_end_drop(s: Seq<char>, j: int)
    requires
        0 <= j <= s.len(),
        forall|k: int| j <= k < s.len() ==> is_ws_char(s[k]),
    ensures
        spec_trim_end(s) == spec_trim_end(s.subrange(0, j)),
    decreases s.len() - j,
{
    if j < s.len() {
        assert(is_ws_char(s[s.len() - 1]));
        assert(spec_trim_end(s) == spec_trim_end(s.drop_last()));
        assert(forall|k: int|
            j <= k < s.drop_last().len() ==> is_ws_char(#[trigger] s.drop_last()[k])) by {
            assert(forall|k: int| j <= k < s.len() - 1 ==> s.drop_last()[k] == s[k]);
        }
        lemma_trim_end_drop(s.drop_last(), j);
        assert(s.drop_last().subrange(0, j) =~= s.subrange(0, j));
    } else {
        assert(s.subrange(0, j) =~= s);
    }
}

proof fn lemma_trim_end_clean(s: Seq<char>)
    requires
        s.len() > 0 ==> !is_ws_char(s[s.len() - 1]),
    ensures
        spec_trim_end(s) == s,
{
}

/// Trimming removes exactly the maximal whitespace margins: if every
/// character before `i` and from `j` on is whitespace, and the characters
/// at the borders are not, the trim of `s` is `s[i .. j]`.
pub proof fn lemma_trim_is_subrange(s: Seq<char>, i: int, j: int)
    requires
        0 <= i <= j <= s.len(),
        forall|k: int| 0 <= k < i ==> is_ws_char(s[k]),
        forall|k: int| j <= k < s.len() ==> is_ws_char(s[k]),
        i < j ==> !is_ws_char(s[i]),
        i < j ==> !is_ws_char(s[j - 1]),
    ensures
        spec_trim(s) == s.subrange(i, j),
{
    lemma_trim_start_drop(s, i);
    let t = s.subrange(i, s.len() as int);
    if i == j {
        assert(forall|k: int| 0 <= k < t.len() ==> is_ws_char(#[trigger] t[k])) by {
            assert(forall|k: int| 0 <= k < t.len() ==> t[k] == s[i + k]);
        }
        lemma_trim_start_all_ws(t);
        assert(spec_trim_end(Seq::<char>::empty()) =~= Seq::<char>::empty());
        assert(s.subrange(i, j) =~= Seq::<char>::empty());
    } else {
        assert(t[0] == s[i]);
        lemma_trim_start_clean(t);
        assert(forall|k: int| j - i <= k < t.len() ==> is_ws_char(#[trigger] t[k])) by {
            assert(forall|k: int| 0 <= k < t.len() ==> t[k] == s[i + k]);
        }
        lemma_trim_end_drop(t, j - i);
        assert(t.subrange(0, j - i) =~= s.subrange(i, j));
        assert(s.subrange(i, j)[j - i - 1] == s[j - 1]);
        lemma_trim_end_clean(s.subrange(i, j));
    }
}

proof fn lemma_trim_start_all_ws(s: Seq<char>)
    requires
        forall|k: int| 0 <= k < s.len() ==> is_ws_char(s[k]),
    ensures
        spec_trim_start(s) == Seq::<char>::empty(),
    decreases s.len(),
{
    if s.len() > 0 {
        lemma_trim_start_all_ws(s.drop_first());
    } else {
        assert(s =~= Seq::<char>::empty());
    }
}

proof fn lemma_trim_start_app(s: Seq<char>, b: Seq<char>)
    requires
        exists|k: int| 0 <= k < s.len() && !is_ws_char(s[k]),
    ensures
        spec_trim_start(s + b) == spec_trim_start(s) + b,
    decreases s.len(),
{
    if is_ws_char(s[0]) {
        assert((s + b).drop_first() =~= s.drop_first() + b);
        let k = choose|k: int| 0 <= k < s.len() && !is_ws_char(s[k]);
        assert(0 <= k - 1 < s.drop_first().len() && !is_ws_char(s.drop_first()[k - 1]));
        lemma_trim_start_app(s.drop_first(), b);
    } else {
        assert(!is_ws_char((s + b)[0]));
    }
}

proof fn lemma_trim_end_ws_suffix(x: Seq<char>, b: Seq<char>)
    requires
        forall|k: int| 0 <= k < b.len() ==> is_ws_char(b[k]),
    ensures
        spec_trim_end(x + b) == spec_trim_end(x),
    decreases b.len(),
{
    if b.len() > 0 {
        let w = x + b;
        assert(is_ws_char(w[w.len() - 1]));
        assert(w.drop_last() =~= x + b.drop_last());
        lemma_trim_end_ws_suffix(x, b.drop_last());
    } else {
        assert(x + b =~= x);
    }
}

/// Padding a string with whitespace on either side does not change its trim.
pub proof fn lemma_trim_pad(a: Seq<char>, s: Seq<char>, b: Seq<char>)
    requires
        forall|k: int| 0 <= k < a.len() ==> is_ws_char(a[k]),
        forall|k: int| 0 <= k < b.len() ==> is_ws_char(b[k]),
    ensures
        spec_trim(a + s + b) == spec_trim(s),
    decreases a.len(),
{
    if a.len() > 0 {
        let w = a + s + b;
        assert(is_ws_char(w[0]));
        assert(w.drop_first() =~= a.drop_first() + s + b);
        lemma_trim_pad(a.drop_first(), s, b);
    } else {
        let w = a + s + b;
        assert(w =~= s + b);
        if exists|k: int| 0 <= k < s.len() && !is_ws_char(s[k]) {
            lemma_trim_start_app(s, b);
            lemma_trim_end_ws_suffix(spec_trim_start(s), b);
        } else {
            assert(forall|k: int| 0 <= k < w.len() ==> is_ws_char(w[k])) by {
                assert(forall|k: int| 0 <= k < s.len() ==> is_ws_char(s[k]));
            }
            lemma_trim_start_all_ws(w);
            lemma_trim_start_all_ws(s);
        }
    }
}

/// The first index at or after which `c` occurs in `s`, if any.
pub open spec fn spec_find(s: Seq<char>, c: char) -> Option<int>
    decreases s.len(),
{
    if s.len() == 0 {
        None
    } else if s[0] == c {
        Some(0int)
    } else {
        match spec_find(s.drop_first(), c) {
            Some(j) => Some(j + 1),
            None => None,
        }
    }
}

/// What `spec_find` returns: the first occurrence, or nothing when the
/// character does not occur at all.
pub proof fn lemma_spec_find(s: Seq<char>, c: char)
    ensures
        match spec_find(s, c) {
            Some(i) => 0 <= i < s.len() && s[i] == c && forall|k: int| 0 <= k < i ==> s[k] != c,
            None => forall|k: int| 0 <= k < s.len() ==> s[k] != c,
        },
    decreases s.len(),
{
    if s.len() > 0 && s[0] != c {
        lemma_spec_find(s.drop_first(), c);
        assert(forall|k: int| 0 <= k < s.drop_first().len() ==> s.drop_first()[k] == s[k + 1]);
        match spec_find(s.drop_first(), c) {
            Some(j) => {
                assert(spec_find(s, c) == Some(j + 1));
                assert(forall|k: int| 0 <= k < j + 1 ==> s[k] != c) by {
                    assert(forall|k: int| 1 <= k < j + 1 ==> s[k] == s.drop_first()[k - 1]);
                }
            },
            None => {
                assert(forall|k: int| 0 <= k < s.len() ==> s[k] != c) by {
                    assert(forall|k: int| 1 <= k < s.len() ==> s[k] == s.drop_first()[k - 1]);
                }
            },
        }
    }
}

/// The converse: an occurrence at `i` with none before it pins `spec_find` down.
pub proof fn lemma_spec_find_at(s: Seq<char>, c: char, i: int)
    requires
        0 <= i < s.len(),
        s[i] == c,
        forall|k: int| 0 <= k < i ==> s[k] != c,
    ensures
        spec_find(s, c) == Some(i),
{
    lemma_spec_find(s, c);
    match spec_find(s, c) {
        Some(j) => {
            if j < i {
                assert(s[j] != c);
            }
            if i < j {
                assert(s[i] != c);
            }
        },
        None => {
            assert(s[i] != c);
        },
    }
}

/// `spec_find` pins down to `None` when the character never occurs.
pub proof fn lemma_spec_find_none(s: Seq<char>, c: char)
    requires
        forall|k: int| 0 <= k < s.len() ==> s[k] != c,
    ensures
        spec_find(s, c) == None::<int>,
{
    lemma_spec_find(s, c);
    if let Some(i) = spec_find(s, c) {
        assert(s[i] != c);
    }
}

/// Copies the characters of a string slice into a vector, one per character.
pub fn str_to_chars(s: &str) -> (r: Vec<char>)
    ensures
        r@ == s@,
{
    let n = s.unicode_len();
    let mut v: Vec<char> = Vec::new();
    let mut i: usize = 0;
    while i < n
        invariant
            i <= n,
            n == s@.len(),
            v@ == s@.subrange(0, i as int),
        decreases n - i,
    {
        let c = s.get_char(i);
        v.push(c);
        assert(v@ =~= s@.subrange(0, i + 1 as int));
        i = i + 1;
    }
    assert(v@ =~= s@);
    v
}

/// Relies on `String`'s `FromIterator` implementation: collecting characters
/// yields the string made of exactly those characters, in order.
#[verifier::external_body]
pub(crate) fn chars_to_string(v: &Vec<char>) -> (r: String)
    ensures
        r@ == v@,
{
    v.iter().collect()
}

/// Trims leading and trailing whitespace from a character vector.
pub fn trim_chars(v: &Vec<char>) -> (r: Vec<char>)
    ensures
        r@ == spec_trim(v@),
{
    let n = v.len();
    let mut i: usize = 0;
    while i < n && is_ws(v[i])
        invariant
            i <= n,
            n == v@.len(),
            forall|k: int| 0 <= k < i ==> is_ws_char(v@[k]),
        decreases n - i,
    {
        i = i + 1;
    }
    let mut j: usize = n;
    while j > i && is_ws(v[j - 1])
        invariant
            i <= j <= n,
            n == v@.len(),
            forall|k: int| 0 <= k < i ==> is_ws_char(v@[k]),
            forall|k: int| j <= k < n ==> is_ws_char(v@[k]),
        decreases j,
    {
        j = j - 1;
    }
    let mut r: Vec<char> = Vec::new();
    let mut k: usize = i;
    while k < j
        invariant
            i <= k <= j <= n,
            n == v@.len(),
            r@ == v@.subrange(i as int, k as int),
        decreases j - k,
    {
        let c = v[k];
        r.push(c);
        assert(r@ =~= v@.subrange(i as int, k + 1 as int));
        k = k + 1;
    }
    proof {
        lemma_trim_is_subrange(v@, i as int, j as int);
    }
    r
}

/// Trims a string slice, returning an owned string.
pub fn trim_str(s: &str) -> (r: String)
    ensures
        r@ == spec_trim(s@),
{
    let v = str_to_chars(s);
    let t = trim_chars(&v);
    chars_to_string(&t)
}

/// Finds the first occurrence of `c` in `v`, scanning left to right.
pub fn find_char(v: &Vec<char>, c: char) -> (r: Option<usize>)
    ensures
        match r {
            Some(i) => spec_find(v@, c) == Some(i as int),
            None => spec_find(v@, c) == None::<int>,
        },
{
    let n = v.len();
    let mut i: usize = 0;
    while i < n
        invariant
            i <= n,
            n == v@.len(),
            forall|k: int| 0 <= k < i ==> v@[k] != c,
        decreases n - i,
    {
        if v[i] == c {
            proof {
                lemma_spec_find_at(v@, c, i as int);
            }
            return Some(i);
        }
        i = i + 1;
    }
    proof {
        lemma_spec_find_none(v@, c);
    }
    None
}

/// Copies `v[from .. to]` into a fresh vector.
pub fn sub_chars(v: &Vec<char>, from: usize, to: usize) -> (r: Vec<char>)
    requires
        from <= to <= v@.len(),
    ensures
        r@ == v@.subrange(from as int, to as int),
{
    let mut r: Vec<char> = Vec::new();
    let mut k: usize = from;
    while k < to
        invariant
            from <= k <= to <= v@.len(),
            r@ == v@.subrange(from as int, k as int),
        decreases to - k,
    {
        let c = v[k];
        r.push(c);
        assert(r@ =~= v@.subrange(from as int, k + 1 as int));
        k = k + 1;
    }
    r
}

/// The preview of a response body used in error messages: everything from
/// the first `<` on is dropped (HTML tags stripped), and the rest trimmed.
pub open spec fn spec_body_preview(s: Seq<char>) -> Seq<char> {
    match spec_find(s, '<') {
        Some(i) => spec_trim(s.subrange(0, i)),
        None => spec_trim(s),
    }
}

/// The preview of the empty body is empty.
pub proof fn lemma_body_preview_empty()
    ensures
        spec_body_preview(Seq::<char>::empty()) == Seq::<char>::empty(),
{
    let e = Seq::<char>::empty();
    assert(spec_find(e, '<') is None);
    assert(spec_trim_start(e) == e);
    assert(spec_trim_end(e) == e);
}

/// Computes the body preview: the text before the first `<`, trimmed.
pub fn body_preview(s: &str) -> (r: String)
    ensures
        r@ == spec_body_preview(s@),
{
    let v = str_to_chars(s);
    proof {
        lemma_spec_find(v@, '<');
    }
    let head = match find_char(&v, '<') {
        Some(i) => sub_chars(&v, 0, i),
        None => v,
    };
    let t = trim_chars(&head);
    chars_to_string(&t)
}

/// Whether `p` is a prefix of `s`.
pub open spec fn is_prefix_of(p: Seq<char>, s: Seq<char>) -> bool {
    s.len() >= p.len() && s.subrange(0, p.len() as int) == p
}

/// Whether `c` occurs anywhere in `s`.
pub open spec fn has_char(s: Seq<char>, c: char) -> bool {
    exists|k: int| 0 <= k < s.len() && s[k] == c
}

/// Tests whether a string starts with the given prefix.
pub fn str_starts_with(s: &str, prefix: &str) -> (r: bool)
    ensures
        r == is_prefix_of(prefix@, s@),
{
    let n = s.unicode_len();
    let m = prefix.unicode_len();
    if n < m {
        return false;
    }
    let mut i: usize = 0;
    while i < m
        invariant
            i <= m,
            m == prefix@.len(),
            n == s@.len(),
            m <= n,
            forall|k: int| 0 <= k < i ==> s@[k] == prefix@[k],
        decreases m - i,
    {
        if s.get_char(i) != prefix.get_char(i) {
            proof {
                assert(s@.subrange(0, m as int)[i as int] == s@[i as int]);
            }
            return false;
        }
        i = i + 1;
    }
    proof {
        assert(s@.subrange(0, m as int) =~= prefix@);
    }
    true
}

/// Tests whether a string contains the given character.
pub fn str_has_char(s: &str, c: char) -> (r: bool)
    ensures
        r == has_char(s@, c),
{
    let n = s.unicode_len();
    let mut i: usize = 0;
    while i < n
        invariant
            i <= n,
            n == s@.len(),
            forall|k: int| 0 <= k < i ==> s@[k] != c,
        decreases n - i,
    {
        if s.get_char(i) == c {
            return true;
        }
        i = i + 1;
    }
    false
}

/// Compares a character vector to a string slice, character by character.
pub fn chars_eq_str(v: &Vec<char>, s: &str) -> (r: bool)
    ensures
        r == (v@ == s@),
{
    let n = s.unicode_len();
    if v.len() != n {
        proof {
            assert(v@.len() != s@.len());
        }
        return false;
    }
    let mut i: usize = 0;
    while i < n
        invariant
            i <= n,
            n == s@.len(),
            n == v@.len(),
            forall|k: int| 0 <= k < i ==> v@[k] == s@[k],
        decreases n - i,
    {
        if v[i] != s.get_char(i) {
            return false;
        }
        i = i + 1;
    }
    proof {
        assert(v@ =~= s@);
    }
    true
}

/// Appends every character of `s` to `out`.
pub fn push_str_chars(out: &mut Vec<char>, s: &str)
    ensures
        final(out)@ == old(out)@ + s@,
{
    let n = s.unicode_len();
    let mut i: usize = 0;
    while i < n
        invariant
            i <= n,
            n == s@.len(),
            out@ == old(out)@ + s@.subrange(0, i as int),
        decreases n - i,
    {
        let c = s.get_char(i);
        out.push(c);
        assert(out@ =~= old(out)@ + s@.subrange(0, i + 1 as int));
        i = i + 1;
    }
    assert(out@ =~= old(out)@ + s@);
}

} // verus!
