//! The few points where the library leans on code outside it: the system
//! clock (through `chrono`) and one `std` conversion that `vstd` does not
//! specify. Each item's contract states no more than the callee's
//! documentation plainly gives.
use vstd::prelude::*;

verus! {

/// Relies on `chrono::Utc::now` and `chrono::DateTime::to_rfc3339`: the
/// current time rendered as an RFC 3339 / ISO 8601 string such as
/// `1996-12-19T16:39:57+00:00`. The value depends on the clock, so nothing
/// is stated beyond the string being non-empty.
#[verifier::external_body]
pub(crate) fn now_rfc3339() -> (r: String)
    ensures
        r@.len() > 0,
{
    chrono::Utc::now().to_rfc3339()
}

/// Relies on `chrono::Utc::now` and `chrono::DateTime::timestamp_millis`:
/// the current time as milliseconds since the Unix epoch. The value depends
/// on the clock, so nothing is stated about it.
#[verifier::external_body]
pub(crate) fn now_unix_millis() -> i64 {
    chrono::Utc::now().timestamp_millis()
}

/// Relies on `String`'s `FromIterator<char>` impl: collecting characters
/// yields the string made of exactly those characters in order.
#[verifier::external_body]
pub(crate) fn chars_to_string(v: &Vec<char>) -> (r: String)
    ensures
        r@ == v@,
{
    v.iter().collect()
}

} // verus!
