//! The claims carried in an authentication token.

use vstd::prelude::*;

verus! {

/// Represents the claims used in authentication tokens.
#[derive(Clone, Debug)]
pub struct Claims {
    /// The subject of the token, typically the user ID.
    pub sub: String,
    /// The expiration time of the token, as a Unix timestamp.
    pub exp: usize,
}

} // verus!
