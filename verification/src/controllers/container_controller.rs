//! Request shapes of the container endpoints.

use vstd::prelude::*;

verus! {

/// The request payload for creating a container.
pub struct StartContainerRequest {
    pub challenge_id: i32,
    pub category_id: i32,
}

/// The request payload for stopping a container.
pub struct StopContainerRequest {
    pub id: String,
    pub message: String,
}

} // verus!
