//! The shared context every sub-client is built from: the configuration
//! and the session store location. The context is plain data; clients take
//! a reference to it and hold no back-pointers.

use vstd::prelude::*;

use crate::config::EnvConfig;
use crate::error::ApiError;
use crate::store::CacheManager;
use std::sync::Arc;

verus! {

/// The configuration and store location every client shares.
pub struct ClientContext {
    /// The environment configuration: base URL, endpoints, credentials.
    pub config: EnvConfig,
    /// The session store location.
    pub cache: CacheManager,
}

/// Builds a client from the shared context. The concrete clients that
/// carry an HTTP transport implement this outside the verified library.
pub trait FromContext: Sized {
    /// Creates an instance of `Self` over the given shared context.
    fn from_ctx(ctx: Arc<ClientContext>) -> Result<Self, ApiError>;
}

} // verus!
