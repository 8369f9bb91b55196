//! A client library for a server-rendered web application that uses
//! form-based authentication with a per-session CSRF token. The library
//! obtains a session by replaying the site's login flow, persists it
//! durably across processes, attaches it to outgoing requests, detects
//! invalidation, and wraps the network calls in a bounded retry policy.
//! The HTTP transport and the filesystem sit with the embedding program;
//! every decision either side of them is verified.

use vstd::prelude::*;

pub mod codec;
pub mod config;
pub mod context;
pub mod cookies;
pub mod error;
pub mod gate;
pub mod login;
pub mod logout;
pub mod retry;
pub mod search;
pub mod session;
pub mod store;
pub mod strutil;
pub mod token;

verus! {

/// The crate version, as published in its manifest.
pub fn version() -> (r: &'static str)
    ensures
        r@ == "0.1.0"@,
{
    "0.1.0"
}

/// The crate name, as published in its manifest.
pub fn name() -> (r: &'static str)
    ensures
        r@ == "cekunit_client"@,
{
    "cekunit_client"
}

/// Build metadata of the crate, for logging and diagnostics.
pub struct BuildInfo {
    /// The crate version.
    pub version: &'static str,
    /// The crate name.
    pub name: &'static str,
    /// The authors string.
    pub authors: &'static str,
    /// The description.
    pub description: &'static str,
    /// The repository URL.
    pub repository: &'static str,
}

/// Returns the build metadata of the crate.
pub fn build_info() -> (r: BuildInfo)
    ensures
        r.version@ == "0.1.0"@,
        r.name@ == "cekunit_client"@,
{
    BuildInfo {
        version: version(),
        name: name(),
        authors: "",
        description: "Verified session engine for the unit-check web application",
        repository: "",
    }
}

} // verus!
