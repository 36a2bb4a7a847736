//! The server-side clock that stamps records at creation time.

use vstd::prelude::*;

verus! {

/// Reads the current time as text.
///
/// Relies on `chrono::offset::Utc::now` and `DateTime::to_rfc3339`: the
/// call returns an RFC 3339 / ISO 8601 date-and-time string such as
/// `1996-12-19T16:39:57+00:00`. The value depends on the wall clock, so
/// nothing more is assumed of it than that it is nonempty; every caller
/// treats it as an arbitrary timestamp text.
#[verifier::external_body]
pub(crate) fn now_rfc3339() -> (r: String)
    ensures
        r@.len() > 0,
{
    chrono::offset::Utc::now().to_rfc3339()
}

} // verus!
