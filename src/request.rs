//! The decisions around a request to the server: where it goes, whether it
//! carries a body, and which error a failed response stands for.

use vstd::prelude::*;
use crate::error::{Error, ErrorInfo};

verus! {

/// Root of the server's API; request paths are appended to it.
pub const API_ROOT: &'static str = "http://investown2.test:8081/";

/// Key under which the session token is stored in the browser.
pub const TOKEN_KEY: &'static str = "invest.token";

/// The HTTP methods the UI uses.
#[derive(Clone, Copy, Debug, PartialEq, Eq)]
pub enum HttpMethod {
    Get,
    Post,
    Put,
    Patch,
    Delete,
}

impl HttpMethod {
    /// Whether a request of this method carries the JSON body it is given.
    pub fn allows_body(&self) -> (r: bool)
        ensures
            r == (*self == HttpMethod::Post || *self == HttpMethod::Put),
    {
        matches!(self, HttpMethod::Post | HttpMethod::Put)
    }
}

/// The full URL of an API path.
pub fn api_url(path: &str) -> (r: String)
    ensures
        r@ == API_ROOT@ + path@,
{
    String::from_str(API_ROOT).concat(path)
}

/// Whether a status code reports success.
pub fn is_success(status: u16) -> (r: bool)
    ensures
        r == (200 <= status <= 299),
{
    200 <= status && status <= 299
}

/// Which part of a failed response's body is read.
#[derive(Clone, Copy, Debug, PartialEq, Eq)]
pub enum BodyNeeded {
    /// None.
    Nothing,
    /// The message of an [`crate::auth::ApiResult`].
    Message,
    /// The validation errors of an [`ErrorInfo`].
    Details,
}

/// What was read from a failed response's body.
#[derive(Debug)]
pub enum ErrorBody {
    /// Nothing was asked for.
    Absent,
    /// The body's message.
    Message(String),
    /// The body's validation errors.
    Details(ErrorInfo),
    /// The body could not be read as asked.
    Unreadable,
}

/// Which part of the body a failed response of `status` is read for.
pub fn body_needed(status: u16) -> (r: BodyNeeded)
    ensures
        r == (if status == 401 || status == 409 {
            BodyNeeded::Message
        } else if status == 422 {
            BodyNeeded::Details
        } else {
            BodyNeeded::Nothing
        }),
{
    if status == 401 || status == 409 {
        BodyNeeded::Message
    } else if status == 422 {
        BodyNeeded::Details
    } else {
        BodyNeeded::Nothing
    }
}

/// The error that a failed response of `status` stands for, given what was
/// read from its body (see [`body_needed`]).
pub fn error_for_status(status: u16, body: ErrorBody) -> (r: Error)
    ensures
        status == 400 ==> r == Error::BadRequest,
        status == 401 ==> match body {
            ErrorBody::Message(m) => r == Error::Unauthorized(m),
            _ => r == Error::DeserializeError,
        },
        status == 403 ==> (r matches Error::Forbidden(m) && m@.len() == 0),
        status == 404 ==> r == Error::NotFound,
        status == 409 ==> match body {
            ErrorBody::Message(m) => r == Error::Conflict(m),
            _ => r == Error::DeserializeError,
        },
        status == 422 ==> match body {
            ErrorBody::Details(d) => r == Error::UnprocessableEntity(d),
            _ => r == Error::DeserializeError,
        },
        status == 500 ==> (r matches Error::InternalServerError(m) && m@.len() == 0),
        !(status == 400 || status == 401 || status == 403 || status == 404 || status == 409
            || status == 422 || status == 500) ==> r == Error::RequestError,
{
    if status == 400 {
        Error::BadRequest
    } else if status == 401 {
        match body {
            ErrorBody::Message(m) => Error::Unauthorized(m),
            _ => Error::DeserializeError,
        }
    } else if status == 403 {
        Error::Forbidden(String::new())
    } else if status == 404 {
        Error::NotFound
    } else if status == 409 {
        match body {
            ErrorBody::Message(m) => Error::Conflict(m),
            _ => Error::DeserializeError,
        }
    } else if status == 422 {
        match body {
            ErrorBody::Details(d) => Error::UnprocessableEntity(d),
            _ => Error::DeserializeError,
        }
    } else if status == 500 {
        Error::InternalServerError(String::new())
    } else {
        Error::RequestError
    }
}

} // verus!
