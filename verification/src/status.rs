//! The status codes that the operations answer with, and what a request
//! that failed outside its handler is answered with.

use vstd::prelude::*;
use vstd::string::StringExecFns;

verus! {

/// The seconds a request may take before it is given up.
pub const REQUEST_TIMEOUT_SECS: u64 = 10;

/// The HTTP status codes that the service chooses between.
#[derive(Clone, Copy, Debug, PartialEq, Eq, Structural)]
pub enum StatusCode {
    /// 201: a record was made.
    Created,
    /// 204: a record was removed; there is nothing to show.
    NoContent,
    /// 404: there is no record with the identifier asked for.
    NotFound,
    /// 408: the request took longer than [`REQUEST_TIMEOUT_SECS`].
    RequestTimeout,
    /// 500: the request failed for a reason the service does not know.
    InternalServerError,
}

impl StatusCode {
    /// The number of the status code.
    pub open spec fn number(self) -> u16 {
        match self {
            StatusCode::Created => 201,
            StatusCode::NoContent => 204,
            StatusCode::NotFound => 404,
            StatusCode::RequestTimeout => 408,
            StatusCode::InternalServerError => 500,
        }
    }

    #[verifier::when_used_as_spec(number)]
    pub fn as_u16(self) -> (number: u16)
        ensures
            number == self.number(),
    {
        match self {
            StatusCode::Created => 201,
            StatusCode::NoContent => 204,
            StatusCode::NotFound => 404,
            StatusCode::RequestTimeout => 408,
            StatusCode::InternalServerError => 500,
        }
    }
}

/// What the body of a 500 response says before the description of the
/// failure.
pub open spec fn unhandled_error_prefix() -> Seq<char> {
    "Unhandled internal error: "@
}

/// Chooses the response to a request that failed outside its handler.
/// A request that ran out of time is answered with 408 and no body; any
/// other failure with 500 and a body that quotes `error`, the description
/// of the failure.
pub fn handle_error(timed_out: bool, error: &str) -> (response: Result<
    StatusCode,
    (StatusCode, String),
>)
    ensures
        timed_out ==> response == Ok::<StatusCode, (StatusCode, String)>(
            StatusCode::RequestTimeout,
        ),
        !timed_out ==> {
            &&& response matches Err((status, body))
            &&& status == StatusCode::InternalServerError
            &&& body@ == unhandled_error_prefix() + error@
        },
{
    if timed_out {
        Ok(StatusCode::RequestTimeout)
    } else {
        let body = String::from_str("Unhandled internal error: ").concat(error);
        Err((StatusCode::InternalServerError, body))
    }
}

} // verus!
