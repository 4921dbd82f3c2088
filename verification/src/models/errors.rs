//! The error taxonomy of the user flows and the loader.

use vstd::prelude::*;

use crate::sync::SyncError;

verus! {

/// Represents errors that can occur during user registration.
#[derive(Clone, Copy, Debug, PartialEq, Eq, Structural)]
pub enum RegistrationError {
    /// The email is already taken.
    EmailAlreadyTaken,
    /// The username is already taken.
    UsernameAlreadyTaken,
    /// An internal failure during registration.
    InternalError,
}

/// Represents errors that can occur during user login.
#[derive(Clone, Copy, Debug, PartialEq, Eq, Structural)]
pub enum LoginError {
    /// The provided credentials are invalid.
    InvalidCredentials,
    /// An internal failure during login.
    InternalError,
}

/// Represents errors that can occur during the loading process.
#[derive(Clone, Copy, Debug, PartialEq, Eq)]
pub enum LoaderError {
    /// Error related to directory traversal.
    WalkDirError(()),
    /// Error related to input/output operations.
    IoError(()),
    /// Error related to JSON parsing.
    JsonError(()),
    /// Error related to store operations.
    DatabaseError(()),
}

impl LoaderError {
    /// Classifies a per-item sync failure: a parser rejection is a JSON
    /// error, a store rejection a database error.
    pub fn of_sync_error(e: &SyncError) -> (r: LoaderError)
        ensures
            r == (match e {
                SyncError::Parse(_) => LoaderError::JsonError(()),
                SyncError::Reconcile(_) => LoaderError::DatabaseError(()),
            }),
    {
        match e {
            SyncError::Parse(_) => LoaderError::JsonError(()),
            SyncError::Reconcile(_) => LoaderError::DatabaseError(()),
        }
    }
}

} // verus!
