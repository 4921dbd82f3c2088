//! The error envelope the controllers answer with.

use vstd::prelude::*;

verus! {

/// The error body of a controller response.
#[derive(Debug)]
pub struct ErrorResponse {
    pub error: ErrorDetail,
}

/// The detail of one reported error.
#[derive(Debug)]
pub struct ErrorDetail {
    pub code: String,
    pub message: String,
    pub field: Option<String>,
}

/// A controller-level failure.
#[derive(Debug)]
pub enum ControllerError {
    BadRequest(ErrorResponse),
    InternalServerError,
}

impl ErrorResponse {
    pub fn new(code: String, message: String, field: Option<String>) -> (r: Self)
        ensures
            r.error.code == code,
            r.error.message == message,
            r.error.field == field,
    {
        Self { error: ErrorDetail { code, message, field } }
    }
}

impl ErrorDetail {
    pub fn new(code: String, message: String, field: Option<String>) -> (r: Self)
        ensures
            r.code == code,
            r.message == message,
            r.field == field,
    {
        Self { code, message, field }
    }
}

} // verus!
