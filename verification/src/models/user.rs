//! User records.

use vstd::prelude::*;

verus! {

/// Represents a new user to be created in the system, prior to being
/// assigned an ID or other system-generated values.
pub struct NewUser {
    /// The email address of the new user.
    pub email: String,
    /// The username of the new user.
    pub username: String,
    /// The hashed password of the new user.
    pub password_hash: String,
}

} // verus!
