//! Request and response shapes of the user flows, and the mapping of their
//! errors to the response envelope.

use vstd::prelude::*;

use crate::controllers::errors::ErrorResponse;
use crate::models::errors::{LoginError, RegistrationError};

verus! {

/// Represents the request payload for registering a user.
pub struct RegisterRequest {
    pub email: String,
    pub username: String,
    pub password: String,
}

/// Represents the response for a successful user registration.
pub struct RegisterResponse {
    pub message: String,
}

/// Represents the request payload for logging in a user.
pub struct LoginRequest {
    pub username: String,
    pub password: String,
}

/// Represents the response for a successful user login.
pub struct LoginResponse {
    pub message: String,
    pub token: String,
}

/// Maps registration errors to a user-facing error response: the duplicate
/// errors name their offending field, everything else is reported as an
/// internal error.
pub fn map_registration_error(e: RegistrationError) -> (r: ErrorResponse)
    ensures
        match e {
            RegistrationError::EmailAlreadyTaken => r.error.code@ == "EMAIL_ALREADY_TAKEN"@
                && r.error.message@ == "Email is already taken."@ && (r.error.field matches Some(f)
                && f@ == "email"@),
            RegistrationError::UsernameAlreadyTaken => r.error.code@ == "USERNAME_ALREADY_TAKEN"@
                && r.error.message@ == "Username is already taken."@ && (r.error.field matches Some(
                f,
            ) && f@ == "pseudo"@),
            RegistrationError::InternalError => r.error.code@ == "INTERNAL_SERVER_ERROR"@
                && r.error.message@ == "Internal server error."@ && r.error.field is None,
        },
{
    match e {
        RegistrationError::EmailAlreadyTaken => ErrorResponse::new(
            "EMAIL_ALREADY_TAKEN".to_owned(),
            "Email is already taken.".to_owned(),
            Some("email".to_owned()),
        ),
        RegistrationError::UsernameAlreadyTaken => ErrorResponse::new(
            "USERNAME_ALREADY_TAKEN".to_owned(),
            "Username is already taken.".to_owned(),
            Some("pseudo".to_owned()),
        ),
        RegistrationError::InternalError => ErrorResponse::new(
            "INTERNAL_SERVER_ERROR".to_owned(),
            "Internal server error.".to_owned(),
            None,
        ),
    }
}

/// Maps login errors to a user-facing error response: bad credentials are
/// named as such, everything else is reported as an internal error.
pub fn map_login_error(e: LoginError) -> (r: ErrorResponse)
    ensures
        match e {
            LoginError::InvalidCredentials => r.error.code@ == "INVALID_CREDENTIALS"@
                && r.error.message@ == "Invalid username or password."@ && r.error.field is None,
            LoginError::InternalError => r.error.code@ == "INTERNAL_SERVER_ERROR"@
                && r.error.message@ == "Internal server error."@ && r.error.field is None,
        },
{
    match e {
        LoginError::InvalidCredentials => ErrorResponse::new(
            "INVALID_CREDENTIALS".to_owned(),
            "Invalid username or password.".to_owned(),
            None,
        ),
        LoginError::InternalError => ErrorResponse::new(
            "INTERNAL_SERVER_ERROR".to_owned(),
            "Internal server error.".to_owned(),
            None,
        ),
    }
}

} // verus!
