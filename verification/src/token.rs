//! CSRF token extraction from HTML pages.
//!
//! The token may sit in an `<input name="_token" value="...">` element or in
//! a `<meta name="csrf-token" content="...">` element. The raw attribute
//! lookups go through the `select` HTML parser; everything after them — the
//! trimming, the emptiness checks, and the preference of the input element
//! over the meta tag — is verified here.

use vstd::prelude::*;

use crate::error::ApiError;
use crate::strutil::{spec_trim, trim_str};

verus! {

/// The `value` attribute of the first element with `name="_token"` in the
/// best-effort parse of the HTML, if any. A function of the HTML alone.
pub uninterp spec fn input_token_attr(html: Seq<char>) -> Option<Seq<char>>;

/// The `content` attribute of the first element with `name="csrf-token"` in
/// the best-effort parse of the HTML, if any. A function of the HTML alone.
pub uninterp spec fn meta_token_content(html: Seq<char>) -> Option<Seq<char>>;

/// Relies on `select`'s `Document::from(&str)` and `Node::attr`: the result
/// is the `value` attribute of the first element carrying `name="_token"`,
/// determined by the HTML text alone.
#[verifier::external_body]
fn find_input_token(html: &str) -> (r: Option<String>)
    ensures
        match r {
            Some(s) => input_token_attr(html@) == Some(s@),
            None => input_token_attr(html@) is None,
        },
{
    let doc = select::document::Document::from(html);
    doc.find(select::predicate::Attr("name", "_token")).next().and_then(
        |node| node.attr("value"),
    ).map(|v| v.to_string())
}

/// Relies on `select`'s `Document::from(&str)` and `Node::attr`: the result
/// is the `content` attribute of the first element carrying
/// `name="csrf-token"`, determined by the HTML text alone.
#[verifier::external_body]
fn find_meta_token(html: &str) -> (r: Option<String>)
    ensures
        match r {
            Some(s) => meta_token_content(html@) == Some(s@),
            None => meta_token_content(html@) is None,
        },
{
    let doc = select::document::Document::from(html);
    doc.find(select::predicate::Attr("name", "csrf-token")).next().and_then(
        |node| node.attr("content"),
    ).map(|v| v.to_string())
}

/// The trimmed token taken from an attribute lookup, kept only when it is
/// non-empty.
pub open spec fn spec_token_of(attr: Option<Seq<char>>) -> Option<Seq<char>> {
    match attr {
        Some(s) => if spec_trim(s).len() > 0 {
            Some(spec_trim(s))
        } else {
            None
        },
        None => None,
    }
}

/// What token extraction yields for a given HTML page: the trimmed input
/// token when present and non-empty, else the trimmed meta token when
/// present and non-empty, else nothing.
pub open spec fn spec_extract_csrf_token(html: Seq<char>) -> Option<Seq<char>> {
    match spec_token_of(input_token_attr(html)) {
        Some(t) => Some(t),
        None => spec_token_of(meta_token_content(html)),
    }
}

fn token_of(attr: Option<String>) -> (r: Option<String>)
    ensures
        match r {
            Some(s) => spec_token_of(
                match attr {
                    Some(a) => Some(a@),
                    None => None,
                },
            ) == Some(s@),
            None => spec_token_of(
                match attr {
                    Some(a) => Some(a@),
                    None => None,
                },
            ) is None,
        },
{
    match attr {
        Some(a) => {
            let t = trim_str(a.as_str());
            if t.unicode_len() > 0 {
                Some(t)
            } else {
                None
            }
        },
        None => None,
    }
}

/// Extracts a CSRF token from an HTML string: the first non-empty trimmed
/// token found, looking at the hidden `_token` input first and at the
/// `csrf-token` meta tag second. Fails with `CsrfTokenNotFound` when
/// neither yields one.
pub fn extract_csrf_token(html: &str) -> (r: Result<String, ApiError>)
    ensures
        match r {
            Ok(t) => spec_extract_csrf_token(html@) == Some(t@),
            Err(e) => spec_extract_csrf_token(html@) is None && e@
                == crate::error::ApiErrorView::CsrfTokenNotFound,
        },
{
    let from_input = token_of(find_input_token(html));
    match from_input {
        Some(t) => Ok(t),
        None => {
            let from_meta = token_of(find_meta_token(html));
            match from_meta {
                Some(t) => Ok(t),
                None => Err(ApiError::CsrfTokenNotFound),
            }
        },
    }
}

/// The input element takes precedence: whenever the HTML carries an
/// `input[name=_token]` whose value trims to something non-empty, token
/// extraction returns exactly that trimmed value, whatever any meta tag
/// says.
pub proof fn lemma_token_preference(html: Seq<char>, v: Seq<char>)
    requires
        input_token_attr(html) == Some(v),
        spec_trim(v).len() > 0,
    ensures
        spec_extract_csrf_token(html) == Some(spec_trim(v)),
{
}

} // verus!
