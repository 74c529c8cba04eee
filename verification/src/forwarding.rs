//! The dashboard's reverse proxy: where a request is sent upstream, and which
//! headers are passed on. Header names are in the lower-case form HTTP
//! libraries normalise them to.
use vstd::prelude::*;
use crate::text::str_eq;

verus! {

/// A request header is passed upstream unless it is `host` or
/// `content-length`, which the HTTP client sets itself for the upstream request.
pub fn forward_request_header(name: &str) -> (r: bool)
    ensures
        r == !(name@ == "host"@ || name@ == "content-length"@),
{
    !(str_eq(name, "host") || str_eq(name, "content-length"))
}

/// A response header is passed back to the browser unless it is
/// `transfer-encoding` or `connection`, which describe the upstream connection.
pub fn forward_response_header(name: &str) -> (r: bool)
    ensures
        r == !(name@ == "transfer-encoding"@ || name@ == "connection"@),
{
    !(str_eq(name, "transfer-encoding") || str_eq(name, "connection"))
}

/// The URL that `reference` names relative to the URL `base`, in its text
/// form, as `url::Url::parse` of `base` followed by `Url::join` resolves it
/// (RFC 3986 resolution with the WHATWG URL rules), or `None` when either does
/// not parse. It depends on the two texts alone.
pub uninterp spec fn joined_url(base: Seq<char>, reference: Seq<char>) -> Option<Seq<char>>;

/// `Url::parse(base)` then `Url::join(reference)`, the result as text: the
/// result is named, not spelled out.
#[verifier::external_body]
fn join_url(base: &str, reference: &str) -> (r: Option<String>)
    ensures
        match r {
            Some(u) => joined_url(base@, reference@) == Some(u@),
            None => joined_url(base@, reference@) is None,
        },
{
    reqwest::Url::parse(base).and_then(|u| u.join(reference)).ok().map(|u| u.to_string())
}

/// Where a request is sent upstream: its path and query (`/` when it has
/// none) resolved against the upstream URL; `None` when that gives no URL.
pub fn proxy_target(upstream: &str, path_and_query: Option<&str>) -> (r: Option<String>)
    ensures
        ({
            let reference = match path_and_query {
                Some(p) => p@,
                None => "/"@,
            };
            match r {
                Some(u) => joined_url(upstream@, reference) == Some(u@),
                None => joined_url(upstream@, reference) is None,
            }
        }),
{
    let reference = match path_and_query {
        Some(p) => p,
        None => "/",
    };
    join_url(upstream, reference)
}

} // verus!
