//! Wall-clock access for timestamping.
//!
//! The core stamps events and key metadata with Unix timestamps.  Reading
//! the clock is the one effect here; everything downstream of the returned
//! integer is verified.

use vstd::prelude::*;

verus! {

/// Relies on chrono's `Utc::now().timestamp()`: seconds since the Unix
/// epoch of the current wall-clock instant.  Nothing can be promised of a
/// clock reading.
#[verifier::external_body]
fn utc_timestamp() -> i64 {
    chrono::Utc::now().timestamp()
}

/// The current Unix timestamp, clamped to be non-negative so that the
/// elapsed-time arithmetic of the rotation and expiry gates cannot
/// overflow even under a misconfigured clock.
pub fn now_timestamp() -> (r: i64)
    ensures
        r >= 0,
{
    let t = utc_timestamp();
    if t < 0 {
        0
    } else {
        t
    }
}

} // verus!
