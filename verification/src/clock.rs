//! The one place where the library reads the system clock.

use vstd::prelude::*;

verus! {

/// Relies on chrono's `Utc::now` and `DateTime::timestamp_millis`: the
/// current UTC instant as milliseconds since the Unix epoch.  `Utc::now`
/// only returns once the system clock is at or after the epoch, so the
/// result is non-negative; nothing further can be promised of a clock
/// reading.
#[verifier::external_body]
pub(crate) fn now_millis() -> (t: i64)
    ensures
        0 <= t,
{
    chrono::Utc::now().timestamp_millis()
}

} // verus!
