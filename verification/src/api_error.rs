//! Errors answered by the HTTP API: a status code and the body
//! `{"error": {"code", "message", "param"?}}`.
use vstd::prelude::*;

verus! {

pub const BAD_REQUEST: u16 = 400;

pub const UNAUTHORIZED: u16 = 401;

pub const NOT_FOUND: u16 = 404;

pub const CONFLICT: u16 = 409;

pub const UNPROCESSABLE_ENTITY: u16 = 422;

pub const INTERNAL_SERVER_ERROR: u16 = 500;

pub const BAD_GATEWAY: u16 = 502;

pub const SERVICE_UNAVAILABLE: u16 = 503;

/// An error answer of the API.
pub struct ApiError {
    pub status: u16,
    pub code: String,
    pub message: String,
    pub param: Option<String>,
}

/// The answer's parts as the specification sees them.
pub open spec fn error_is(
    e: ApiError,
    status: u16,
    code: Seq<char>,
    message: Seq<char>,
    param: Option<Seq<char>>,
) -> bool {
    &&& e.status == status
    &&& e.code@ == code
    &&& e.message@ == message
    &&& match (e.param, param) {
        (Some(p), Some(q)) => p@ == q,
        (None, None) => true,
        _ => false,
    }
}

/// An error answer with the given parts.
pub fn api_error(status: u16, code: &str, message: String, param: Option<&str>) -> (r: ApiError)
    ensures
        error_is(
            r,
            status,
            code@,
            message@,
            match param {
                Some(p) => Some(p@),
                None => None,
            },
        ),
{
    ApiError {
        status,
        code: String::from_str(code),
        message,
        param: match param {
            Some(p) => Some(String::from_str(p)),
            None => None,
        },
    }
}

} // verus!
