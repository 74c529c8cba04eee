//! The wall clock and fresh identifiers.
use vstd::prelude::*;

verus! {

/// Microseconds since the Unix epoch, as `std::time::SystemTime::now` reads the
/// clock (0 when the clock reads before the epoch). Nothing is stated of the
/// value: it is the machine's time.
#[verifier::external_body]
pub fn now_micros() -> i64 {
    std::time::SystemTime::now().duration_since(std::time::UNIX_EPOCH).unwrap_or_default().as_micros() as i64
}

/// The Crockford base-32 alphabet that ULID text is written in.
pub open spec fn is_ulid_char(c: char) -> bool {
    ('0' <= c && c <= '9') || ('A' <= c && c <= 'Z' && c != 'I' && c != 'L' && c != 'O' && c != 'U')
}

/// A fresh ULID in its text form, from `ulid::Ulid::new` and `Ulid::to_string`:
/// 26 characters of the Crockford base-32 alphabet. Which ULID comes back
/// depends on the time and on a random number; nothing more is stated.
#[verifier::external_body]
pub(crate) fn new_ulid() -> (r: String)
    ensures
        r@.len() == 26,
        forall|i: int| 0 <= i < 26 ==> is_ulid_char(#[trigger] r@[i]),
{
    ulid::Ulid::new().to_string()
}

} // verus!
