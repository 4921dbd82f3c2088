//! The roles a user can have within the system.

use vstd::prelude::*;

verus! {

/// Represents the roles a user can have within the system.
#[derive(Debug, PartialEq, Eq, Structural)]
pub enum Role {
    /// A regular user role.
    User,
    /// A VIP user role with additional privileges.
    Vip,
    /// An admin role with full access.
    Admin,
}

impl Role {
    /// The numeric ID a role is stored under.
    pub open spec fn spec_id(&self) -> i32 {
        match self {
            Role::User => 1i32,
            Role::Vip => 2i32,
            Role::Admin => 3i32,
        }
    }

    /// Converts a numeric ID to a `Role`; `None` for an unknown ID.
    pub fn from_id(id: i32) -> (r: Option<Self>)
        ensures
            r == (if id == 1i32 {
                Some(Role::User)
            } else if id == 2i32 {
                Some(Role::Vip)
            } else if id == 3i32 {
                Some(Role::Admin)
            } else {
                None::<Role>
            }),
            r matches Some(role) ==> role.spec_id() == id,
    {
        match id {
            1 => Some(Role::User),
            2 => Some(Role::Vip),
            3 => Some(Role::Admin),
            _ => None,
        }
    }

    /// Converts a `Role` to its numeric ID.
    pub fn to_id(&self) -> (id: i32)
        ensures
            id == self.spec_id(),
    {
        match self {
            Role::User => 1,
            Role::Vip => 2,
            Role::Admin => 3,
        }
    }
}

} // verus!
