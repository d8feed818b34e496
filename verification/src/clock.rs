//! The wall clock.

use vstd::prelude::*;

verus! {

/// `Utc::now` of the `chrono` crate, as `DateTime::timestamp_millis` gives it:
/// the milliseconds since the Unix epoch at the moment of the call. Nothing is
/// claimed of the number: two calls may give any two numbers.
#[verifier::external_body]
pub(crate) fn now_millis() -> (now: i64) {
    chrono::Utc::now().timestamp_millis()
}

} // verus!
