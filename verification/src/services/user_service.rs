//! The computation the user service performs around its outside calls:
//! assembling the claims a fresh token carries.

use vstd::prelude::*;

use crate::models::claims::Claims;
use crate::numeric::{i32_dec_rep, i32_to_decimal};

verus! {

/// How long a token stays valid, in seconds: one day.
pub const TOKEN_EXPIRATION_SECONDS: u64 = 86400;

/// Service for managing user-related operations.
pub struct UserService;

impl UserService {
    /// Assembles the claims of a fresh token for a user: the user's ID in
    /// decimal as the subject, and an expiry one day past `now_seconds`, the
    /// current Unix time the caller read from the clock.
    pub fn generate_claims(user_identifier: &i32, now_seconds: u64) -> (r: Claims)
        requires
            now_seconds + TOKEN_EXPIRATION_SECONDS <= usize::MAX,
        ensures
            r.sub@ == i32_dec_rep(*user_identifier as int),
            r.exp == now_seconds + TOKEN_EXPIRATION_SECONDS,
    {
        Claims {
            sub: i32_to_decimal(*user_identifier),
            exp: (now_seconds + TOKEN_EXPIRATION_SECONDS) as usize,
        }
    }
}

} // verus!
