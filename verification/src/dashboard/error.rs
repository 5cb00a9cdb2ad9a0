//! Dashboard errors and how they are answered.
use vstd::prelude::*;

verus! {

/// Errors returned by dashboard operations.
#[derive(Debug)]
pub enum AppError {
    Unauthorized,
    InvalidCredentials,
    RateLimited { retry_after: u64 },
    Validation(String),
    Conflict(String),
    BadRequest(String),
    NotFound,
    BadGateway,
    AgentUnavailable,
    Internal(String),
}

/// Result alias for dashboard operations.
pub type Result<T> = core::result::Result<T, AppError>;

impl AppError {
    /// The HTTP status of the answer.
    pub open spec fn status_view(&self) -> u16 {
        match self {
            AppError::Unauthorized => 401,
            AppError::InvalidCredentials => 401,
            AppError::RateLimited { .. } => 429,
            AppError::Validation(_) => 422,
            AppError::Conflict(_) => 409,
            AppError::BadRequest(_) => 400,
            AppError::NotFound => 404,
            AppError::BadGateway => 502,
            AppError::AgentUnavailable => 503,
            AppError::Internal(_) => 500,
        }
    }

    /// The `error` code of the answer's body.
    pub open spec fn code_view(&self) -> Seq<char> {
        match self {
            AppError::Unauthorized => "unauthorized"@,
            AppError::InvalidCredentials => "invalid_credentials"@,
            AppError::RateLimited { .. } => "too_many_requests"@,
            AppError::Validation(_) => "validation_error"@,
            AppError::Conflict(_) => "conflict"@,
            AppError::BadRequest(_) => "bad_request"@,
            AppError::NotFound => "not_found"@,
            AppError::BadGateway => "bad_gateway"@,
            AppError::AgentUnavailable => "agent_unavailable"@,
            AppError::Internal(_) => "internal_error"@,
        }
    }

    /// The HTTP status and body code of the answer to this error.
    pub fn status_and_code(&self) -> (r: (u16, &'static str))
        ensures
            r.0 == self.status_view(),
            r.1@ == self.code_view(),
    {
        match self {
            AppError::Unauthorized => (401, "unauthorized"),
            AppError::InvalidCredentials => (401, "invalid_credentials"),
            AppError::RateLimited { .. } => (429, "too_many_requests"),
            AppError::Validation(_) => (422, "validation_error"),
            AppError::Conflict(_) => (409, "conflict"),
            AppError::BadRequest(_) => (400, "bad_request"),
            AppError::NotFound => (404, "not_found"),
            AppError::BadGateway => (502, "bad_gateway"),
            AppError::AgentUnavailable => (503, "agent_unavailable"),
            AppError::Internal(_) => (500, "internal_error"),
        }
    }

    /// The `detail` of the answer's body: the message of a validation,
    /// conflict or bad-request error.
    pub fn detail(&self) -> (r: Option<String>)
        ensures
            match self {
                AppError::Validation(m) => r == Some(*m),
                AppError::Conflict(m) => r == Some(*m),
                AppError::BadRequest(m) => r == Some(*m),
                _ => r is None,
            },
    {
        match self {
            AppError::Validation(m) => Some(m.clone()),
            AppError::Conflict(m) => Some(m.clone()),
            AppError::BadRequest(m) => Some(m.clone()),
            _ => None,
        }
    }
}

} // verus!
