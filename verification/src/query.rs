//! The ad-hoc SQL endpoint's guard: only read queries are run.
use vstd::prelude::*;
use crate::api_error::{api_error, error_is, ApiError, UNPROCESSABLE_ENTITY};
use crate::text::{is_prefix, starts_with, to_uppercase, trim, trimmed_text, uppercase_text};

verus! {

/// An SQL query as requested.
pub struct QueryReq {
    pub sql: Option<String>,
}

/// A query's normalized text (trimmed and upper-cased) begins with SELECT,
/// WITH, EXPLAIN or SHOW.
pub open spec fn reads_only(u: Seq<char>) -> bool {
    is_prefix("SELECT"@, u) || is_prefix("WITH"@, u) || is_prefix("EXPLAIN"@, u) || is_prefix(
        "SHOW"@,
        u,
    )
}

/// A query is run only when, trimmed and upper-cased, it begins with SELECT,
/// WITH, EXPLAIN or SHOW.
pub open spec fn is_read_query(sql: Seq<char>) -> bool {
    reads_only(uppercase_text(trimmed_text(sql)))
}

/// Whether a query's trimmed, upper-cased text begins with a reading
/// statement (see [`reads_only`]).
pub fn is_read_only(normalized: &str) -> (r: bool)
    ensures
        r == reads_only(normalized@),
{
    starts_with(normalized, "SELECT") || starts_with(normalized, "WITH") || starts_with(
        normalized,
        "EXPLAIN",
    ) || starts_with(normalized, "SHOW")
}

/// The SQL to run, as given: it is required (422 missing_field) and must be a
/// read query (422 invalid_query).
pub fn validate_query(body: &QueryReq) -> (r: Result<String, ApiError>)
    ensures
        match body.sql {
            None => (r matches Err(e) && error_is(
                e,
                UNPROCESSABLE_ENTITY,
                "missing_field"@,
                "sql is required"@,
                Some("sql"@),
            )),
            Some(s) => if s@.len() == 0 {
                r matches Err(e) && error_is(
                    e,
                    UNPROCESSABLE_ENTITY,
                    "missing_field"@,
                    "sql is required"@,
                    Some("sql"@),
                )
            } else if !is_read_query(s@) {
                r matches Err(e) && error_is(
                    e,
                    UNPROCESSABLE_ENTITY,
                    "invalid_query"@,
                    "only SELECT, WITH, EXPLAIN, and SHOW queries are allowed"@,
                    Some("sql"@),
                )
            } else {
                r == Ok::<String, ApiError>(s)
            },
        },
{
    let sql = match &body.sql {
        Some(s) => if s.as_str().is_empty() {
            None
        } else {
            Some(s)
        },
        None => None,
    };
    let sql = match sql {
        Some(s) => s,
        None => return Err(
            api_error(
                UNPROCESSABLE_ENTITY,
                "missing_field",
                String::from_str("sql is required"),
                Some("sql"),
            ),
        ),
    };
    let upper = to_uppercase(trim(sql.as_str()));
    if !is_read_only(upper.as_str()) {
        return Err(
            api_error(
                UNPROCESSABLE_ENTITY,
                "invalid_query",
                String::from_str("only SELECT, WITH, EXPLAIN, and SHOW queries are allowed"),
                Some("sql"),
            ),
        );
    }
    Ok(sql.clone())
}

} // verus!
