//! The error taxonomy shared by every operation of the core.
//!
//! Storage and crypto failures are never swallowed: they are mapped to
//! the nearest member of this taxonomy and handed back to the caller,
//! which turns them into an HTTP status and a generic message. The
//! original cause never leaks beyond its category label.

use vstd::prelude::*;

verus! {

/// Typed failure of a core operation.
#[derive(Clone, Copy, Debug, PartialEq, Eq, Structural)]
pub enum ApiError {
    /// Any storage failure, including constraint violations.
    DatabaseError,
    /// A row that was asked for does not exist.
    NotFound,
    /// Catch-all for failures of collaborators (crypto, mail transport).
    InternalServerError,
    /// Bad or missing credentials, or a failed admin check.
    Unauthorized,
    /// Malformed filter or body.
    BadRequest,
    /// A failure of an outbound HTTP call.
    HttpError,
    /// A failed payment.
    PaymentError,
    /// The email is already registered.
    EmailError,
    /// The phone number is already registered.
    PhoneError,
    /// The username is already registered.
    UsernameError,
}

impl ApiError {
    /// The HTTP status code this error is reported with.
    pub open spec fn spec_status(self) -> u16 {
        match self {
            ApiError::DatabaseError => 500,
            ApiError::NotFound => 404,
            ApiError::InternalServerError => 500,
            ApiError::Unauthorized => 401,
            ApiError::BadRequest => 400,
            ApiError::HttpError => 500,
            ApiError::PaymentError => 402,
            ApiError::EmailError => 409,
            ApiError::PhoneError => 409,
            ApiError::UsernameError => 409,
        }
    }

    /// The user-visible message for this error; the underlying cause is
    /// never exposed.
    pub open spec fn spec_message(self) -> Seq<char> {
        match self {
            ApiError::DatabaseError => "Database error occurred"@,
            ApiError::NotFound => "User not found"@,
            ApiError::InternalServerError => "Internal server error"@,
            ApiError::Unauthorized => "Unauthorized access"@,
            ApiError::BadRequest => "Bad request"@,
            ApiError::HttpError => "HTTP error occurred"@,
            ApiError::PaymentError => "Payment failed"@,
            ApiError::EmailError => "Email already exists"@,
            ApiError::PhoneError => "Phone already exists"@,
            ApiError::UsernameError => "Username already exists"@,
        }
    }

    /// HTTP status code of the error category.
    pub fn status_code(&self) -> (s: u16)
        ensures
            s == self.spec_status(),
    {
        match self {
            ApiError::DatabaseError => 500,
            ApiError::NotFound => 404,
            ApiError::InternalServerError => 500,
            ApiError::Unauthorized => 401,
            ApiError::BadRequest => 400,
            ApiError::HttpError => 500,
            ApiError::PaymentError => 402,
            ApiError::EmailError => 409,
            ApiError::PhoneError => 409,
            ApiError::UsernameError => 409,
        }
    }

    /// Generic message of the error category.
    pub fn message(&self) -> (m: &'static str)
        ensures
            m@ == self.spec_message(),
    {
        match self {
            ApiError::DatabaseError => "Database error occurred",
            ApiError::NotFound => "User not found",
            ApiError::InternalServerError => "Internal server error",
            ApiError::Unauthorized => "Unauthorized access",
            ApiError::BadRequest => "Bad request",
            ApiError::HttpError => "HTTP error occurred",
            ApiError::PaymentError => "Payment failed",
            ApiError::EmailError => "Email already exists",
            ApiError::PhoneError => "Phone already exists",
            ApiError::UsernameError => "Username already exists",
        }
    }
}

} // verus!
