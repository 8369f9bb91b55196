//! Configuration: the credential pair, the base URL and the endpoint paths,
//! with validation and full-URL construction. Reading the process
//! environment is the caller's business; the checking and normalization of
//! the raw values is verified here.

use vstd::prelude::*;

use crate::error::EnvError;
use crate::strutil::{
    chars_to_string, has_char, is_prefix_of, spec_trim, str_has_char, str_starts_with,
    str_to_chars, sub_chars, trim_chars, push_str_chars,
};

verus! {

/// Whether a URL carries an accepted scheme.
pub open spec fn has_scheme(s: Seq<char>) -> bool {
    is_prefix_of("http://"@, s) || is_prefix_of("https://"@, s)
}

/// A base URL normalized: trimmed, with one trailing slash removed.
pub open spec fn spec_normalize_base(s: Seq<char>) -> Seq<char> {
    let t = spec_trim(s);
    if t.len() > 0 && t[t.len() - 1] == '/' {
        t.drop_last()
    } else {
        t
    }
}

/// The sequence with every leading slash removed.
pub open spec fn spec_drop_leading_slashes(s: Seq<char>) -> Seq<char>
    decreases s.len(),
{
    if s.len() > 0 && s[0] == '/' {
        spec_drop_leading_slashes(s.drop_first())
    } else {
        s
    }
}

/// An endpoint path normalized: trimmed, with leading slashes removed.
pub open spec fn spec_normalize_endpoint(s: Seq<char>) -> Seq<char> {
    spec_drop_leading_slashes(spec_trim(s))
}

proof fn lemma_drop_leading_slashes_index(s: Seq<char>, i: int)
    requires
        0 <= i <= s.len(),
        forall|k: int| 0 <= k < i ==> s[k] == '/',
        i < s.len() ==> s[i] != '/',
    ensures
        spec_drop_leading_slashes(s) == s.subrange(i, s.len() as int),
    decreases i,
{
    if i > 0 {
        assert(s[0] == '/');
        assert(forall|k: int| 0 <= k < i - 1 ==> s.drop_first()[k] == s[k + 1]);
        lemma_drop_leading_slashes_index(s.drop_first(), i - 1);
        assert(s.drop_first().subrange(i - 1, s.drop_first().len() as int) =~= s.subrange(
            i,
            s.len() as int,
        ));
    } else {
        assert(s.subrange(0, s.len() as int) =~= s);
    }
}

/// Normalizes a base URL: trims it and removes one trailing slash.
pub fn normalize_base(base: &str) -> (r: String)
    ensures
        r@ == spec_normalize_base(base@),
{
    let t = trim_chars(&str_to_chars(base));
    if t.len() > 0 && t[t.len() - 1] == '/' {
        let head = sub_chars(&t, 0, t.len() - 1);
        proof {
            assert(t@.subrange(0, t@.len() - 1) =~= t@.drop_last());
        }
        chars_to_string(&head)
    } else {
        chars_to_string(&t)
    }
}

/// Normalizes an endpoint path: trims it and removes leading slashes.
pub fn normalize_endpoint(endpoint: &str) -> (r: String)
    ensures
        r@ == spec_normalize_endpoint(endpoint@),
{
    let t = trim_chars(&str_to_chars(endpoint));
    let n = t.len();
    let mut i: usize = 0;
    while i < n && t[i] == '/'
        invariant
            i <= n,
            n == t@.len(),
            forall|k: int| 0 <= k < i ==> t@[k] == '/',
        decreases n - i,
    {
        i = i + 1;
    }
    proof {
        lemma_drop_leading_slashes_index(t@, i as int);
    }
    let tail = sub_chars(&t, i, n);
    chars_to_string(&tail)
}

/// Joins a base URL and a path with a single slash.
fn join_url(base: &str, path: &str) -> (r: String)
    ensures
        r@ == base@ + seq!['/'] + path@,
{
    let mut out: Vec<char> = Vec::new();
    push_str_chars(&mut out, base);
    out.push('/');
    push_str_chars(&mut out, path);
    proof {
        assert(out@ =~= base@ + seq!['/'] + path@);
    }
    chars_to_string(&out)
}

/// Reads one required value: it must be present, and non-empty once
/// trimmed.
pub fn get_env_non_empty(key: &str, raw: Option<&str>) -> (r: Result<String, EnvError>)
    ensures
        match raw {
            None => r matches Err(EnvError::NotFound(k)) && k@ == key@,
            Some(x) => if spec_trim(x@).len() == 0 {
                r matches Err(EnvError::Empty(k)) && k@ == key@
            } else {
                r matches Ok(val) && val@ == spec_trim(x@)
            },
        },
{
    match raw {
        None => Err(EnvError::NotFound(key_string(key))),
        Some(x) => {
            let t = crate::strutil::trim_str(x);
            if t.unicode_len() == 0 {
                Err(EnvError::Empty(key_string(key)))
            } else {
                Ok(t)
            }
        },
    }
}

fn key_string(key: &str) -> (r: String)
    ensures
        r@ == key@,
{
    let v = str_to_chars(key);
    chars_to_string(&v)
}

/// Reads a URL value: required, non-empty, with an `http` or `https`
/// scheme, and normalized.
pub fn get_env_url(key: &str, raw: Option<&str>) -> (r: Result<String, EnvError>)
    ensures
        match raw {
            None => r matches Err(EnvError::NotFound(k)) && k@ == key@,
            Some(x) => if spec_trim(x@).len() == 0 {
                r matches Err(EnvError::Empty(k)) && k@ == key@
            } else if !has_scheme(spec_trim(x@)) {
                r matches Err(EnvError::InvalidUrl(k, _m)) && k@ == key@
            } else {
                r matches Ok(val) && val@ == spec_normalize_base(spec_trim(x@))
            },
        },
{
    let val = match get_env_non_empty(key, raw) {
        Err(e) => {
            return Err(e);
        },
        Ok(v) => v,
    };
    if !str_starts_with(val.as_str(), "http://") && !str_starts_with(val.as_str(), "https://") {
        return Err(
            EnvError::InvalidUrl(key_string(key), key_string("must start with http:// or https://")),
        );
    }
    Ok(normalize_base(val.as_str()))
}

/// Reads an endpoint value: required, non-empty, and normalized.
pub fn get_env_endpoint(key: &str, raw: Option<&str>) -> (r: Result<String, EnvError>)
    ensures
        match raw {
            None => r matches Err(EnvError::NotFound(k)) && k@ == key@,
            Some(x) => if spec_trim(x@).len() == 0 {
                r matches Err(EnvError::Empty(k)) && k@ == key@
            } else {
                r matches Ok(val) && val@ == spec_normalize_endpoint(spec_trim(x@))
            },
        },
{
    let val = match get_env_non_empty(key, raw) {
        Err(e) => {
            return Err(e);
        },
        Ok(v) => v,
    };
    Ok(normalize_endpoint(val.as_str()))
}

/// Configuration loaded from the environment: the credential pair, the
/// base URL, and one path per endpoint the request builders use.
pub struct EnvConfig {
    /// Email address used for authentication; must contain `@`.
    pub user_email: String,
    /// Password used for authentication; at least eight characters.
    pub user_password: String,
    /// Base URL of the application; must carry an `http(s)` scheme.
    pub base_url: String,
    /// Endpoint path for login.
    pub login_endpoint: String,
    /// Endpoint path for logout.
    pub logout_endpoint: String,
    /// Endpoint path for the main dashboard.
    pub dashboard_endpoint: String,
    /// Endpoint path for exporting unit-check data.
    pub cekunit_export_endpoint: String,
    /// Endpoint path for fetching unique column values.
    pub cekunit_unique_endpoint: String,
    /// Endpoint path for deleting records by category.
    pub cekunit_delete_category_endpoint: String,
    /// Endpoint path for deleting all records.
    pub delete_all_endpoint: String,
    /// Endpoint path for individual unit-check items; an id is appended.
    pub cekunit_item_endpoint: String,
    /// Endpoint path for the input-user listing.
    pub input_user_endpoint: String,
    /// Endpoint path for exporting input-user data.
    pub input_user_export_endpoint: String,
    /// Endpoint path for input-data forms.
    pub input_data_endpoint: String,
    /// Endpoint path for the PIC listing.
    pub pic_endpoint: String,
    /// Endpoint path for creating a new PIC.
    pub input_pic_endpoint: String,
    /// Endpoint path for individual PIC items; an id is appended.
    pub pic_item_endpoint: String,
    /// Endpoint path for the users listing.
    pub users_endpoint: String,
    /// Endpoint path for individual user items; an id is appended.
    pub users_item_endpoint: String,
}

impl EnvConfig {
    /// Whether the credential and URL fields pass validation.
    pub open spec fn spec_valid(&self) -> bool {
        has_char(self.user_email@, '@') && self.user_password@.len() >= 8 && has_scheme(
            self.base_url@,
        )
    }

    /// Validates the loaded configuration: the email must contain `@`, the
    /// password must have at least eight characters, and the base URL must
    /// start with `http://` or `https://`.
    pub fn validate(&self) -> (r: Result<(), EnvError>)
        ensures
            r is Ok <==> self.spec_valid(),
            !has_char(self.user_email@, '@') ==> (r matches Err(EnvError::Invalid(k, _m)) && k@
                == "USER_EMAIL"@),
            has_char(self.user_email@, '@') && self.user_password@.len() < 8 ==> (r matches Err(
                EnvError::Invalid(k, _m),
            ) && k@ == "USER_PASSWORD"@),
            has_char(self.user_email@, '@') && self.user_password@.len() >= 8 && !has_scheme(
                self.base_url@,
            ) ==> (r matches Err(EnvError::InvalidUrl(k, _m)) && k@ == "BASE_URL"@),
    {
        if !str_has_char(self.user_email.as_str(), '@') {
            return Err(
                EnvError::Invalid(key_string("USER_EMAIL"), key_string("must contain '@' character")),
            );
        }
        if self.user_password.as_str().unicode_len() < 8 {
            return Err(
                EnvError::Invalid(
                    key_string("USER_PASSWORD"),
                    key_string("must be at least 8 characters"),
                ),
            );
        }
        if !str_starts_with(self.base_url.as_str(), "http://") && !str_starts_with(
            self.base_url.as_str(),
            "https://",
        ) {
            return Err(
                EnvError::InvalidUrl(
                    key_string("BASE_URL"),
                    key_string("must start with http:// or https://"),
                ),
            );
        }
        Ok(())
    }

    /// Builds a full URL from the base URL and an endpoint path.
    pub fn build_url(&self, endpoint: &str) -> (r: String)
        ensures
            r@ == self.base_url@ + seq!['/'] + endpoint@,
    {
        join_url(self.base_url.as_str(), endpoint)
    }

    /// The full login URL.
    pub fn full_login_url(&self) -> (r: String)
        ensures
            r@ == self.base_url@ + seq!['/'] + self.login_endpoint@,
    {
        self.build_url(self.login_endpoint.as_str())
    }

    /// The full logout URL.
    pub fn full_logout_url(&self) -> (r: String)
        ensures
            r@ == self.base_url@ + seq!['/'] + self.logout_endpoint@,
    {
        self.build_url(self.logout_endpoint.as_str())
    }

    /// The full dashboard URL.
    pub fn full_dashboard_url(&self) -> (r: String)
        ensures
            r@ == self.base_url@ + seq!['/'] + self.dashboard_endpoint@,
    {
        self.build_url(self.dashboard_endpoint.as_str())
    }

    /// The full export URL for unit-check data.
    pub fn full_cekunit_export_url(&self) -> (r: String)
        ensures
            r@ == self.base_url@ + seq!['/'] + self.cekunit_export_endpoint@,
    {
        self.build_url(self.cekunit_export_endpoint.as_str())
    }

    /// The full URL for fetching unique column values.
    pub fn full_cekunit_unique_url(&self) -> (r: String)
        ensures
            r@ == self.base_url@ + seq!['/'] + self.cekunit_unique_endpoint@,
    {
        self.build_url(self.cekunit_unique_endpoint.as_str())
    }

    /// The full URL for deleting records by category.
    pub fn full_cekunit_delete_category_url(&self) -> (r: String)
        ensures
            r@ == self.base_url@ + seq!['/'] + self.cekunit_delete_category_endpoint@,
    {
        self.build_url(self.cekunit_delete_category_endpoint.as_str())
    }

    /// The full URL for deleting all records.
    pub fn full_delete_all_url(&self) -> (r: String)
        ensures
            r@ == self.base_url@ + seq!['/'] + self.delete_all_endpoint@,
    {
        self.build_url(self.delete_all_endpoint.as_str())
    }

    /// The full URL for one unit-check item.
    pub fn full_cekunit_item_url(&self, no: &str) -> (r: String)
        ensures
            r@ == self.base_url@ + seq!['/'] + self.cekunit_item_endpoint@ + seq!['/'] + no@,
    {
        let head = self.build_url(self.cekunit_item_endpoint.as_str());
        let r = join_url(head.as_str(), no);
        proof {
            assert(r@ =~= self.base_url@ + seq!['/'] + self.cekunit_item_endpoint@ + seq!['/']
                + no@);
        }
        r
    }

    /// The full URL for the input-user listing.
    pub fn full_input_user_url(&self) -> (r: String)
        ensures
            r@ == self.base_url@ + seq!['/'] + self.input_user_endpoint@,
    {
        self.build_url(self.input_user_endpoint.as_str())
    }

    /// The full URL for exporting input-user data.
    pub fn full_input_user_export_url(&self) -> (r: String)
        ensures
            r@ == self.base_url@ + seq!['/'] + self.input_user_export_endpoint@,
    {
        self.build_url(self.input_user_export_endpoint.as_str())
    }

    /// The full URL for input-data forms.
    pub fn full_input_data_url(&self) -> (r: String)
        ensures
            r@ == self.base_url@ + seq!['/'] + self.input_data_endpoint@,
    {
        self.build_url(self.input_data_endpoint.as_str())
    }

    /// The full URL for the PIC listing.
    pub fn full_pic_url(&self) -> (r: String)
        ensures
            r@ == self.base_url@ + seq!['/'] + self.pic_endpoint@,
    {
        self.build_url(self.pic_endpoint.as_str())
    }

    /// The full URL for creating a new PIC.
    pub fn full_input_pic_url(&self) -> (r: String)
        ensures
            r@ == self.base_url@ + seq!['/'] + self.input_pic_endpoint@,
    {
        self.build_url(self.input_pic_endpoint.as_str())
    }

    /// The full URL for one PIC item.
    pub fn full_pic_item_url(&self, id: &str) -> (r: String)
        ensures
            r@ == self.base_url@ + seq!['/'] + self.pic_item_endpoint@ + seq!['/'] + id@,
    {
        let head = self.build_url(self.pic_item_endpoint.as_str());
        let r = join_url(head.as_str(), id);
        proof {
            assert(r@ =~= self.base_url@ + seq!['/'] + self.pic_item_endpoint@ + seq!['/'] + id@);
        }
        r
    }

    /// The full URL for the users listing.
    pub fn full_users_url(&self) -> (r: String)
        ensures
            r@ == self.base_url@ + seq!['/'] + self.users_endpoint@,
    {
        self.build_url(self.users_endpoint.as_str())
    }

    /// The full URL for one user item.
    pub fn full_users_item_url(&self, id: &str) -> (r: String)
        ensures
            r@ == self.base_url@ + seq!['/'] + self.users_item_endpoint@ + seq!['/'] + id@,
    {
        let head = self.build_url(self.users_item_endpoint.as_str());
        let r = join_url(head.as_str(), id);
        proof {
            assert(r@ =~= self.base_url@ + seq!['/'] + self.users_item_endpoint@ + seq!['/']
                + id@);
        }
        r
    }
}

} // verus!
