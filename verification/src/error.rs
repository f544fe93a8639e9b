//! The application's error type and how each error is answered.
use vstd::prelude::*;

use crate::rate_limiting::RateLimitError;
use crate::text::concat;

verus! {

/// The body of an error answer.
pub struct ErrorResponse {
    pub error: String,
}

/// Every failure a request can end in. The variants that wrap a failure of the
/// database, the connection pool, the cache or the token library hold that
/// failure's description.
pub enum AppError {
    Database(String),
    Pool(String),
    Redis(String),
    Jwt(String),
    NotFound(String),
    Unauthorized,
    Forbidden(String),
    BadRequest(String),
    Internal(String),
    RateLimitError(RateLimitError),
}

/// The HTTP status of a request that succeeded.
pub const STATUS_OK: u16 = 200;

/// HTTP status codes the errors are answered with.
pub const STATUS_BAD_REQUEST: u16 = 400;
pub const STATUS_UNAUTHORIZED: u16 = 401;
pub const STATUS_FORBIDDEN: u16 = 403;
pub const STATUS_NOT_FOUND: u16 = 404;
pub const STATUS_TOO_MANY_REQUESTS: u16 = 429;
pub const STATUS_INTERNAL_SERVER_ERROR: u16 = 500;

impl AppError {
    /// The status code an error is answered with.
    pub open spec fn status_of(self) -> u16 {
        match self {
            AppError::Database(_) => STATUS_INTERNAL_SERVER_ERROR,
            AppError::Pool(_) => STATUS_INTERNAL_SERVER_ERROR,
            AppError::Redis(_) => STATUS_INTERNAL_SERVER_ERROR,
            AppError::Jwt(_) => STATUS_UNAUTHORIZED,
            AppError::NotFound(_) => STATUS_NOT_FOUND,
            AppError::Unauthorized => STATUS_UNAUTHORIZED,
            AppError::Forbidden(_) => STATUS_FORBIDDEN,
            AppError::BadRequest(_) => STATUS_BAD_REQUEST,
            AppError::Internal(_) => STATUS_INTERNAL_SERVER_ERROR,
            AppError::RateLimitError(_) => STATUS_TOO_MANY_REQUESTS,
        }
    }

    /// The message shown to the client: internal failures are not disclosed,
    /// the others carry their own message.
    pub open spec fn public_message_of(self) -> Seq<char> {
        match self {
            AppError::Database(_) => "Database error"@,
            AppError::Pool(_) => "Service temporarily unavailable"@,
            AppError::Redis(_) => "Cache error"@,
            AppError::Jwt(_) => "Invalid authentication token"@,
            AppError::NotFound(m) => m@,
            AppError::Unauthorized => "Unauthorized access"@,
            AppError::Forbidden(m) => m@,
            AppError::BadRequest(m) => m@,
            AppError::Internal(m) => m@,
            AppError::RateLimitError(e) => e.msg@,
        }
    }

    /// The full description of an error, as it is logged.
    pub open spec fn description_of(self) -> Seq<char> {
        match self {
            AppError::Database(e) => "Database error: "@ + e@,
            AppError::Pool(e) => "Pool error: "@ + e@,
            AppError::Redis(e) => "Redis error: "@ + e@,
            AppError::Jwt(e) => "JWT error: "@ + e@,
            AppError::NotFound(m) => "Not found: "@ + m@,
            AppError::Unauthorized => "Unauthorized"@,
            AppError::Forbidden(m) => "Forbidden: "@ + m@,
            AppError::BadRequest(m) => "Bad request: "@ + m@,
            AppError::Internal(m) => "Internal error: "@ + m@,
            AppError::RateLimitError(e) => "Rate limit error "@ + e.msg@,
        }
    }

    /// The status code this error is answered with.
    pub fn status_code(&self) -> (c: u16)
        ensures
            c == self.status_of(),
    {
        match self {
            AppError::Database(_) => STATUS_INTERNAL_SERVER_ERROR,
            AppError::Pool(_) => STATUS_INTERNAL_SERVER_ERROR,
            AppError::Redis(_) => STATUS_INTERNAL_SERVER_ERROR,
            AppError::Jwt(_) => STATUS_UNAUTHORIZED,
            AppError::NotFound(_) => STATUS_NOT_FOUND,
            AppError::Unauthorized => STATUS_UNAUTHORIZED,
            AppError::Forbidden(_) => STATUS_FORBIDDEN,
            AppError::BadRequest(_) => STATUS_BAD_REQUEST,
            AppError::Internal(_) => STATUS_INTERNAL_SERVER_ERROR,
            AppError::RateLimitError(_) => STATUS_TOO_MANY_REQUESTS,
        }
    }

    /// The message shown to the client.
    pub fn public_message(&self) -> (m: String)
        ensures
            m@ == self.public_message_of(),
    {
        match self {
            AppError::Database(_) => "Database error".to_string(),
            AppError::Pool(_) => "Service temporarily unavailable".to_string(),
            AppError::Redis(_) => "Cache error".to_string(),
            AppError::Jwt(_) => "Invalid authentication token".to_string(),
            AppError::NotFound(m) => m.clone(),
            AppError::Unauthorized => "Unauthorized access".to_string(),
            AppError::Forbidden(m) => m.clone(),
            AppError::BadRequest(m) => m.clone(),
            AppError::Internal(m) => m.clone(),
            AppError::RateLimitError(e) => e.msg.clone(),
        }
    }

    /// The full description of this error.
    pub fn description(&self) -> (d: String)
        ensures
            d@ == self.description_of(),
    {
        match self {
            AppError::Database(e) => concat("Database error: ", e.as_str()),
            AppError::Pool(e) => concat("Pool error: ", e.as_str()),
            AppError::Redis(e) => concat("Redis error: ", e.as_str()),
            AppError::Jwt(e) => concat("JWT error: ", e.as_str()),
            AppError::NotFound(m) => concat("Not found: ", m.as_str()),
            AppError::Unauthorized => "Unauthorized".to_string(),
            AppError::Forbidden(m) => concat("Forbidden: ", m.as_str()),
            AppError::BadRequest(m) => concat("Bad request: ", m.as_str()),
            AppError::Internal(m) => concat("Internal error: ", m.as_str()),
            AppError::RateLimitError(e) => concat("Rate limit error ", e.msg.as_str()),
        }
    }

    /// The answer to this error: its status code and the body that carries its
    /// public message.
    pub fn into_response_parts(self) -> (r: (u16, ErrorResponse))
        ensures
            r.0 == self.status_of(),
            r.1.error@ == self.public_message_of(),
    {
        let status = self.status_code();
        let message = self.public_message();
        (status, ErrorResponse { error: message })
    }
}

impl From<RateLimitError> for AppError {
    fn from(err: RateLimitError) -> (e: AppError) {
        AppError::RateLimitError(err)
    }
}

impl vstd::std_specs::convert::FromSpecImpl<RateLimitError> for AppError {
    open spec fn obeys_from_spec() -> bool {
        true
    }

    open spec fn from_spec(err: RateLimitError) -> AppError {
        AppError::RateLimitError(err)
    }
}

} // verus!
