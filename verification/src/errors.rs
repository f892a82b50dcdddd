//! Error taxonomy of the gatekeeping layer.
//!
//! Every gate either passes a request through or terminates it with
//! one of these categories.  The mapping to HTTP status codes and to
//! outward-facing messages lives here, so the surrounding transport
//! code only formats what these functions decide.

use vstd::prelude::*;

verus! {

#[derive(Debug, Clone)]
pub enum AppError {
    DatabaseError(String),
    RedisError(String),
    AuthenticationError(String),
    ValidationError(String),
    NotFound(String),
    Forbidden(String),
    InternalError(String),
    BadRequest(String),
    Conflict(String),
    RateLimitExceeded,
}

/// The HTTP status code a given error maps to.
pub open spec fn spec_status_code(e: AppError) -> u16 {
    match e {
        AppError::DatabaseError(_) => 500u16,
        AppError::RedisError(_) => 500u16,
        AppError::AuthenticationError(_) => 401u16,
        AppError::ValidationError(_) => 400u16,
        AppError::NotFound(_) => 404u16,
        AppError::Forbidden(_) => 403u16,
        AppError::InternalError(_) => 500u16,
        AppError::BadRequest(_) => 400u16,
        AppError::Conflict(_) => 409u16,
        AppError::RateLimitExceeded => 429u16,
    }
}

/// The message such a response may carry outward.  Server-side
/// failures are replaced by a fixed phrase so that internals never
/// leak; user-triggered errors keep their message.
pub open spec fn spec_public_message(e: AppError) -> Seq<char> {
    match e {
        AppError::DatabaseError(_) => "Database error occurred"@,
        AppError::RedisError(_) => "Cache error occurred"@,
        AppError::AuthenticationError(m) => m@,
        AppError::ValidationError(m) => m@,
        AppError::NotFound(m) => m@,
        AppError::Forbidden(m) => m@,
        AppError::InternalError(_) => "Internal server error"@,
        AppError::BadRequest(m) => m@,
        AppError::Conflict(m) => m@,
        AppError::RateLimitExceeded => "Rate limit exceeded"@,
    }
}

/// Whether the error indicates a bug or dependency outage, which must
/// be logged at error severity; expected, user-triggerable outcomes
/// never are.
pub open spec fn spec_is_server_fault(e: AppError) -> bool {
    match e {
        AppError::DatabaseError(_) => true,
        AppError::RedisError(_) => true,
        AppError::InternalError(_) => true,
        _ => false,
    }
}

impl AppError {
    /// HTTP status code for this error.
    pub fn status_code(&self) -> (status: u16)
        ensures
            status == spec_status_code(*self),
    {
        match self {
            AppError::DatabaseError(_) => 500,
            AppError::RedisError(_) => 500,
            AppError::AuthenticationError(_) => 401,
            AppError::ValidationError(_) => 400,
            AppError::NotFound(_) => 404,
            AppError::Forbidden(_) => 403,
            AppError::InternalError(_) => 500,
            AppError::BadRequest(_) => 400,
            AppError::Conflict(_) => 409,
            AppError::RateLimitExceeded => 429,
        }
    }

    /// The message to expose in the response body.
    pub fn public_message(&self) -> (message: String)
        ensures
            message@ == spec_public_message(*self),
    {
        match self {
            AppError::DatabaseError(_) => String::from_str("Database error occurred"),
            AppError::RedisError(_) => String::from_str("Cache error occurred"),
            AppError::AuthenticationError(m) => clone_message(m),
            AppError::ValidationError(m) => clone_message(m),
            AppError::NotFound(m) => clone_message(m),
            AppError::Forbidden(m) => clone_message(m),
            AppError::InternalError(_) => String::from_str("Internal server error"),
            AppError::BadRequest(m) => clone_message(m),
            AppError::Conflict(m) => clone_message(m),
            AppError::RateLimitExceeded => String::from_str("Rate limit exceeded"),
        }
    }

    /// Whether this error must be logged at error severity.
    pub fn is_server_fault(&self) -> (fault: bool)
        ensures
            fault == spec_is_server_fault(*self),
    {
        match self {
            AppError::DatabaseError(_) => true,
            AppError::RedisError(_) => true,
            AppError::InternalError(_) => true,
            _ => false,
        }
    }
}

fn clone_message(m: &String) -> (r: String)
    ensures
        r@ == m@,
{
    m.as_str().to_owned()
}

} // verus!
