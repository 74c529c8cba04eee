//! Bearer-token authorization of API requests.
use vstd::prelude::*;
use crate::text::{is_prefix, str_eq, strip_prefix};

verus! {

/// Why a request is not authorized.
#[derive(Debug, PartialEq, Eq, Structural, Clone, Copy)]
pub enum AuthError {
    /// No `Authorization: Bearer <token>` header.
    MissingToken,
    /// The token is not the API key.
    InvalidKey,
}

impl AuthError {
    /// The error's text.
    pub fn message(&self) -> (r: String)
        ensures
            r@ == (match self {
                AuthError::MissingToken => "missing or malformed Authorization header"@,
                AuthError::InvalidKey => "invalid API key"@,
            }),
    {
        match self {
            AuthError::MissingToken => String::from_str("missing or malformed Authorization header"),
            AuthError::InvalidKey => String::from_str("invalid API key"),
        }
    }
}

/// The token of an `Authorization` header value of the form `Bearer <token>`.
pub fn extract_bearer(header: Option<&str>) -> (r: Option<&str>)
    ensures
        match header {
            None => r is None,
            Some(h) => if is_prefix("Bearer "@, h@) {
                r matches Some(t) && t@ == h@.subrange(7, h@.len() as int)
            } else {
                r is None
            },
        },
{
    proof {
        reveal_strlit("Bearer ");
    }
    match header {
        None => None,
        Some(h) => strip_prefix(h, "Bearer "),
    }
}

/// A request is authorized when its `Authorization` header is `Bearer`
/// followed by a space and exactly the API key.
pub fn authorize(header: Option<&str>, api_key: &str) -> (r: Result<(), AuthError>)
    ensures
        match header {
            None => r == Err::<(), AuthError>(AuthError::MissingToken),
            Some(h) => if !is_prefix("Bearer "@, h@) {
                r == Err::<(), AuthError>(AuthError::MissingToken)
            } else if h@.subrange(7, h@.len() as int) == api_key@ {
                r is Ok
            } else {
                r == Err::<(), AuthError>(AuthError::InvalidKey)
            },
        },
{
    match extract_bearer(header) {
        None => Err(AuthError::MissingToken),
        Some(t) => if str_eq(t, api_key) {
            Ok(())
        } else {
            Err(AuthError::InvalidKey)
        },
    }
}

/// Exactly the header `Bearer <api key>` is authorized.
pub proof fn lemma_only_the_key_is_authorized(h: Seq<char>, api_key: Seq<char>)
    ensures
        (is_prefix("Bearer "@, h) && h.subrange(7, h.len() as int) == api_key) <==> h == "Bearer "@
            + api_key,
{
    reveal_strlit("Bearer ");
    if h == "Bearer "@ + api_key {
        assert(h.subrange(0, 7) =~= "Bearer "@);
        assert(h.subrange(7, h.len() as int) =~= api_key);
    }
    if is_prefix("Bearer "@, h) && h.subrange(7, h.len() as int) == api_key {
        assert(h =~= h.subrange(0, 7) + h.subrange(7, h.len() as int));
    }
}

} // verus!
