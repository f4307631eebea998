//! Reading the master's wall clock.

use vstd::prelude::*;

verus! {

/// Relies on `chrono::Utc::now`, read out through
/// `chrono::DateTime::timestamp_millis`: the master's wall clock, as
/// milliseconds since the Unix epoch. The reading is not a function of
/// anything the library holds, so nothing is assumed of the value. On a
/// system clock set before the Unix epoch, `Utc::now` itself panics; the
/// call hands that through.
#[verifier::external_body]
pub(crate) fn now_millis() -> (r: i64) {
    chrono::Utc::now().timestamp_millis()
}

} // verus!
