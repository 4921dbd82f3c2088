//! Container records.

use vstd::prelude::*;

verus! {

/// Represents a user's container in the system.
#[derive(Debug)]
pub struct UserContainer {
    pub id: i32,
    pub user_id: i32,
    pub challenge_id: i32,
    pub category_id: i32,
    /// The container's name, an opaque identifier assigned at creation.
    pub container_name: String,
    /// When the container was created, as a Unix timestamp.
    pub created_at: i64,
}

/// Represents a new container to be created in the system.
pub struct NewContainer {
    pub user_id: i32,
    pub challenge_id: i32,
    pub category_id: i32,
    pub container_name: String,
}

} // verus!
