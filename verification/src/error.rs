use std::time::Duration;

use vstd::prelude::*;

verus! {

/// Errors returned by the client.
///
/// HTTP-status variants carry the response body (truncated) as `message`.
#[derive(Debug)]
#[non_exhaustive]
pub enum Error {
    /// Missing API key or otherwise unusable client configuration.
    Config(String),
    /// The request was not sendable as built (no state, no questions, bad option set).
    InvalidRequest(String),
    /// The response has no answer of the expected type under this id.
    MissingAnswer { id: String, expected: &'static str },
    /// 400.
    BadRequest { message: String },
    /// 401: missing or invalid API key.
    Authentication { message: String },
    /// 403.
    PermissionDenied { message: String },
    /// 404.
    NotFound { message: String },
    /// 422: the request body failed validation.
    UnprocessableEntity { message: String },
    /// 429: rate limit exceeded after all retries.
    RateLimit { retry_after: Option<Duration>, message: String },
    /// 529: the service is temporarily overloaded, after all retries.
    Overloaded { retry_after: Option<Duration>, message: String },
    /// Any other 5xx, after all retries.
    Server { status: u16, message: String },
    /// Any other unexpected status.
    UnexpectedStatus { status: u16, message: String },
    /// The request never produced a response (DNS, connect, TLS, reset).
    Connection(reqwest::Error),
    /// The request exceeded its timeout.
    Timeout(reqwest::Error),
    /// The response body did not match the documented schema.
    ResponseValidation(serde_json::Error),
    /// Failed to serialize the request body.
    RequestSerialization(serde_json::Error),
}

/// The HTTP status that an error stands for, if any.
pub open spec fn status_of(e: Error) -> Option<u16> {
    match e {
        Error::BadRequest { .. } => Some(400u16),
        Error::Authentication { .. } => Some(401u16),
        Error::PermissionDenied { .. } => Some(403u16),
        Error::NotFound { .. } => Some(404u16),
        Error::UnprocessableEntity { .. } => Some(422u16),
        Error::RateLimit { .. } => Some(429u16),
        Error::Overloaded { .. } => Some(529u16),
        Error::Server { status, .. } => Some(status),
        Error::UnexpectedStatus { status, .. } => Some(status),
        _ => None,
    }
}

/// The error that a non-success response with `status` maps to.
pub open spec fn error_for_status(status: u16, retry_after: Option<Duration>, message: String) -> Error {
    if status == 400 {
        Error::BadRequest { message }
    } else if status == 401 {
        Error::Authentication { message }
    } else if status == 403 {
        Error::PermissionDenied { message }
    } else if status == 404 {
        Error::NotFound { message }
    } else if status == 422 {
        Error::UnprocessableEntity { message }
    } else if status == 429 {
        Error::RateLimit { retry_after, message }
    } else if status == 529 {
        Error::Overloaded { retry_after, message }
    } else if 500 <= status <= 599 {
        Error::Server { status, message }
    } else {
        Error::UnexpectedStatus { status, message }
    }
}

/// Whether the HTTP client reports a transport error as a timeout
/// (`reqwest::Error::is_timeout`).
pub uninterp spec fn http_error_is_timeout(e: reqwest::Error) -> bool;

/// `reqwest::Error::is_timeout`: whether the error, or an error in its chain of
/// sources, is a timeout.
#[verifier::external_body]
fn is_timeout(e: &reqwest::Error) -> (r: bool)
    ensures
        r == http_error_is_timeout(*e),
{
    e.is_timeout()
}

/// The error for a request that produced no response.
pub open spec fn transport_error(e: reqwest::Error) -> Error {
    if http_error_is_timeout(e) {
        Error::Timeout(e)
    } else {
        Error::Connection(e)
    }
}

impl Error {
    /// The error for a request that produced no response: `Timeout` when the
    /// transport error is a timeout, else `Connection`.
    pub fn from_transport(err: reqwest::Error) -> (r: Error)
        ensures
            r == transport_error(err),
    {
        if is_timeout(&err) {
            Error::Timeout(err)
        } else {
            Error::Connection(err)
        }
    }

    /// The HTTP status behind this error, when there is one.
    pub fn status(&self) -> (r: Option<u16>)
        ensures
            r == status_of(*self),
    {
        match self {
            Error::BadRequest { .. } => Some(400),
            Error::Authentication { .. } => Some(401),
            Error::PermissionDenied { .. } => Some(403),
            Error::NotFound { .. } => Some(404),
            Error::UnprocessableEntity { .. } => Some(422),
            Error::RateLimit { .. } => Some(429),
            Error::Overloaded { .. } => Some(529),
            Error::Server { status, .. } => Some(*status),
            Error::UnexpectedStatus { status, .. } => Some(*status),
            _ => None,
        }
    }

    /// The error for a non-success HTTP `status`, carrying the server's
    /// `retry-after` where the status has a place for it.
    pub fn from_status(status: u16, retry_after: Option<Duration>, message: String) -> (r: Error)
        ensures
            r == error_for_status(status, retry_after, message),
            500 <= status <= 599 && status != 529 ==> r == (Error::Server { status, message }),
            !(500 <= status <= 599) ==> !(r is Server),
            r is UnexpectedStatus ==> !(500 <= status <= 599),
    {
        match status {
            400 => Error::BadRequest { message },
            401 => Error::Authentication { message },
            403 => Error::PermissionDenied { message },
            404 => Error::NotFound { message },
            422 => Error::UnprocessableEntity { message },
            429 => Error::RateLimit { retry_after, message },
            529 => Error::Overloaded { retry_after, message },
            500..=599 => Error::Server { status, message },
            _ => Error::UnexpectedStatus { status, message },
        }
    }
}

/// Every status maps to an error that reports that same status.
/// Every 5xx status but 529 (overloaded) is a server error that carries the status
/// and the message; 529 is the overloaded error; no 5xx status is unexpected, and
/// only a 5xx status is a server error.
pub proof fn law_5xx_is_server(status: u16, retry_after: Option<Duration>, message: String)
    ensures
        500 <= status <= 599 && status != 529 ==> error_for_status(status, retry_after, message) == (Error::Server {
            status,
            message,
        }),
        status == 529 ==> error_for_status(status, retry_after, message) == (Error::Overloaded { retry_after, message }),
        500 <= status <= 599 ==> !(error_for_status(status, retry_after, message) is UnexpectedStatus),
        error_for_status(status, retry_after, message) is Server ==> 500 <= status <= 599 && status != 529,
{
}

/// The documented statuses each have their own error, carrying the message (and,
/// for 429, the `retry-after`); any other status below 500 or above 599 is
/// unexpected and carries the status.
pub proof fn law_status_classes(status: u16, retry_after: Option<Duration>, message: String)
    ensures
        status == 400 ==> error_for_status(status, retry_after, message) == (Error::BadRequest { message }),
        status == 401 ==> error_for_status(status, retry_after, message) == (Error::Authentication { message }),
        status == 403 ==> error_for_status(status, retry_after, message) == (Error::PermissionDenied { message }),
        status == 404 ==> error_for_status(status, retry_after, message) == (Error::NotFound { message }),
        status == 422 ==> error_for_status(status, retry_after, message) == (Error::UnprocessableEntity { message }),
        status == 429 ==> error_for_status(status, retry_after, message) == (Error::RateLimit { retry_after, message }),
        (status < 500 || status > 599) && status != 400 && status != 401 && status != 403 && status != 404
            && status != 422 && status != 429 ==> error_for_status(status, retry_after, message) == (
        Error::UnexpectedStatus { status, message }),
{
}

/// A transport error that is a timeout becomes [`Error::Timeout`], any other
/// [`Error::Connection`]; either carries the transport error itself.
pub proof fn law_transport_classes(e: reqwest::Error)
    ensures
        http_error_is_timeout(e) ==> transport_error(e) == Error::Timeout(e),
        !http_error_is_timeout(e) ==> transport_error(e) == Error::Connection(e),
        status_of(transport_error(e)) is None,
{
}

pub proof fn law_status_round_trip(status: u16, retry_after: Option<Duration>, message: String)
    ensures
        status_of(error_for_status(status, retry_after, message)) == Some(status),
{
}

} // verus!
