//! Errors that a request to the server can end in.

use vstd::prelude::*;
use std::collections::HashMap;

verus! {

/// Validation errors the server reports, by field.
#[derive(Clone, Debug, Eq, PartialEq)]
pub struct ErrorInfo {
    pub errors: HashMap<String, Vec<String>>,
}

/// All possible errors of a request.
#[derive(Clone, Debug, Eq, PartialEq)]
pub enum Error {
    /// 400
    BadRequest,
    /// 401
    Unauthorized(String),
    /// 403
    Forbidden(String),
    /// 404
    NotFound,
    /// 409
    Conflict(String),
    /// 422
    UnprocessableEntity(ErrorInfo),
    /// 500
    InternalServerError(String),
    /// The response body could not be read.
    DeserializeError,
    /// The request could not be made, or the status is not one of the above.
    RequestError,
}

/// What `{:?}` writes for a string.
pub uninterp spec fn debug_quoted(s: Seq<char>) -> Seq<char>;

/// Relies on `Debug` for `str`: the string quoted, with escapes.
#[verifier::external_body]
fn quoted(s: &str) -> (r: String)
    ensures
        r@ == debug_quoted(s@),
{
    format!("{:?}", s)
}

/// Relies on `Debug` for `HashMap`; the order of the fields follows the
/// map's iteration order, so nothing is stated of the text.
#[verifier::external_body]
fn fields_text(info: &ErrorInfo) -> (r: String) {
    format!("{:?}", info.errors)
}

impl Error {
    /// The text shown to the user for this error.
    pub fn message(&self) -> (r: String)
        ensures
            match self {
                Error::BadRequest => r@ == "Bad Request"@,
                Error::Unauthorized(m) => r@ == m@,
                Error::Forbidden(m) => r@ == m@,
                Error::NotFound => r@ == "Not Found"@,
                Error::Conflict(m) => r@ == m@,
                Error::UnprocessableEntity(_) => r@.len() >= "Unprocessable Entity: "@.len()
                    && r@.subrange(0, "Unprocessable Entity: "@.len() as int) == "Unprocessable Entity: "@,
                Error::InternalServerError(m) => r@ == "Internal Server Error: "@ + debug_quoted(m@),
                Error::DeserializeError => r@ == "Deserialize Error"@,
                Error::RequestError => r@ == "Http Request Error"@,
            },
    {
        match self {
            Error::BadRequest => String::from_str("Bad Request"),
            Error::Unauthorized(m) => m.clone(),
            Error::Forbidden(m) => m.clone(),
            Error::NotFound => String::from_str("Not Found"),
            Error::Conflict(m) => m.clone(),
            Error::UnprocessableEntity(info) => {
                let head = String::from_str("Unprocessable Entity: ");
                let tail = fields_text(info);
                let r = head.concat(tail.as_str());
                assert(r@.subrange(0, "Unprocessable Entity: "@.len() as int) =~= "Unprocessable Entity: "@);
                r
            },
            Error::InternalServerError(m) => {
                let q = quoted(m.as_str());
                String::from_str("Internal Server Error: ").concat(q.as_str())
            },
            Error::DeserializeError => String::from_str("Deserialize Error"),
            Error::RequestError => String::from_str("Http Request Error"),
        }
    }
}

} // verus!
