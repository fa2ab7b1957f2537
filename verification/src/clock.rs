//! The service clock.

use vstd::prelude::*;

verus! {

/// Relies on chrono::Utc::now: the current civil time, taken as whole
/// seconds since the Unix epoch; a clock reading before the epoch is clamped
/// to 0. Nothing is assumed of the value — every caller states what holds of
/// its result whatever the clock read.
#[verifier::external_body]
pub(crate) fn now_unix() -> u64 {
    u64::try_from(chrono::Utc::now().timestamp()).unwrap_or(0)
}

} // verus!
