//! The session store's decision logic. The store keeps exactly one session
//! record under a fixed file name inside a per-user cache directory; the
//! caller performs the actual reads and writes (atomically, by writing a
//! temporary file and renaming it over the target) and hands the loaded
//! record in here, where the freshness and update decisions are verified.

use vstd::prelude::*;

use crate::session::CacheData;

verus! {

/// Manages the location of the session cache and the decisions taken on a
/// loaded session record.
pub struct CacheManager {
    cache_dir: String,
    cache_file: String,
}

impl CacheManager {
    /// The cache directory path.
    pub closed spec fn spec_dir(&self) -> Seq<char> {
        self.cache_dir@
    }

    /// The cache file path.
    pub closed spec fn spec_file(&self) -> Seq<char> {
        self.cache_file@
    }

    /// Creates a manager over explicitly chosen paths.
    pub fn with_paths(cache_dir: String, cache_file: String) -> (r: Self)
        ensures
            r.spec_dir() == cache_dir@,
            r.spec_file() == cache_file@,
    {
        CacheManager { cache_dir, cache_file }
    }

    /// The full path of the cache file.
    pub fn cache_file_path(&self) -> (r: &String)
        ensures
            r@ == self.spec_file(),
    {
        &self.cache_file
    }

    /// The path of the cache directory.
    pub fn cache_dir_path(&self) -> (r: &String)
        ensures
            r@ == self.spec_dir(),
    {
        &self.cache_dir
    }

    /// Replaces the CSRF token of the loaded session, if one exists, and
    /// stamps it with the current time; with no stored session this is a
    /// no-op. The caller persists the returned record.
    pub fn update_csrf_token(&self, loaded: Option<CacheData>, new_token: String) -> (r: Option<
        CacheData,
    >)
        ensures
            match loaded {
                None => r is None,
                Some(d) => r matches Some(u) && u@.cookies == d@.cookies && u@.csrf_token
                    == new_token@ && u@.logged_in == d@.logged_in && u@.timestamp >= 0,
            },
    {
        match loaded {
            None => None,
            Some(d) => Some(d.with_csrf_token(new_token)),
        }
    }

    /// Keeps the loaded session only while it is fresh: absent or older
    /// than `max_age_seconds` (against the current clock) yields nothing.
    pub fn load_fresh(&self, loaded: Option<CacheData>, max_age_seconds: i64) -> (r: Option<
        CacheData,
    >)
        ensures
            loaded is None ==> r is None,
            match r {
                Some(d) => loaded matches Some(x) && d == x && exists|t: int|
                    0 <= t && d.spec_fresh_at(t, max_age_seconds as int),
                None => loaded is None || exists|t: int|
                    0 <= t && !loaded.unwrap().spec_fresh_at(t, max_age_seconds as int),
            },
    {
        match loaded {
            None => None,
            Some(d) => {
                if d.is_fresh(max_age_seconds) {
                    Some(d)
                } else {
                    None
                }
            },
        }
    }
}

} // verus!
