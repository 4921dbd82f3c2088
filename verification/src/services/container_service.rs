//! The decisions of the container service: reading the user's identity out
//! of their claims and enforcing the per-role container quota.

use vstd::prelude::*;

use crate::controllers::errors::{ControllerError, ErrorResponse};
use crate::models::claims::Claims;
use crate::models::container::UserContainer;
use crate::models::role::Role;
use crate::numeric::{parse_i32, parse_i32_spec};

verus! {

pub struct ContainerService;

/// The number of containers a role may run at once.
pub open spec fn max_containers(role: Role) -> int {
    match role {
        Role::User => 1,
        Role::Vip => 5,
        Role::Admin => 5,
    }
}

impl ContainerService {
    /// Parses the user ID out of the claims' subject: the ID when the
    /// subject is a decimal `i32`, and a bad-request error otherwise.
    pub fn parse_user_id(claims: &Claims) -> (r: Result<i32, ControllerError>)
        ensures
            match r {
                Ok(user_id) => parse_i32_spec(claims.sub@) == Some(user_id as int),
                Err(ControllerError::BadRequest(resp)) => parse_i32_spec(claims.sub@) is None
                    && resp.error.code@ == "INVALID_USER_ID"@ && resp.error.message@
                    == "Invalid user ID in claims"@ && resp.error.field is None,
                Err(ControllerError::InternalServerError) => false,
            },
    {
        match parse_i32(&claims.sub) {
            Some(user_id) => Ok(user_id),
            None => Err(
                ControllerError::BadRequest(
                    ErrorResponse::new(
                        "INVALID_USER_ID".to_owned(),
                        "Invalid user ID in claims".to_owned(),
                        None,
                    ),
                ),
            ),
        }
    }

    /// Checks whether the user may create one more container: allowed
    /// exactly when they run fewer containers than their role's quota, and
    /// answered with a bad-request error naming the limit otherwise.
    pub fn check_container_creation_permission(role: Role, containers: &Vec<UserContainer>) -> (r:
        Result<(), ControllerError>)
        ensures
            r is Ok <==> (containers@.len() as int) < max_containers(role),
            match r {
                Ok(_) => true,
                Err(ControllerError::BadRequest(resp)) => resp.error.code@
                    == "CONTAINER_LIMIT_REACHED"@ && resp.error.field is None && resp.error.message@
                    == (if role == Role::User {
                    "You can only have 1 active instance. Upgrade to VIP to run up to 5 instances."@
                } else {
                    "VIP users can run up to 5 instances. Contact support for additional capacity."@
                }),
                Err(ControllerError::InternalServerError) => false,
            },
    {
        let limit: usize = match role {
            Role::User => 1,
            Role::Vip => 5,
            Role::Admin => 5,
        };
        if containers.len() >= limit {
            let message: &str = match role {
                Role::User => "You can only have 1 active instance. Upgrade to VIP to run up to 5 instances.",
                Role::Vip => "VIP users can run up to 5 instances. Contact support for additional capacity.",
                Role::Admin => "VIP users can run up to 5 instances. Contact support for additional capacity.",
            };
            return Err(
                ControllerError::BadRequest(
                    ErrorResponse::new(
                        "CONTAINER_LIMIT_REACHED".to_owned(),
                        message.to_owned(),
                        None,
                    ),
                ),
            );
        }
        Ok(())
    }
}

} // verus!
