//! Timestamps: nanoseconds since the Unix epoch, read from the wall clock.

use vstd::prelude::*;

verus! {

/// A point in time, as unsigned nanoseconds since the Unix epoch.
#[derive(Copy, Clone, Debug, Eq, PartialEq)]
pub struct NsSinceEpoch(pub u64);

impl View for NsSinceEpoch {
    type V = u64;

    open spec fn view(&self) -> u64 {
        self.0
    }
}

/// Relies on time::OffsetDateTime::now_utc and
/// time::OffsetDateTime::unix_timestamp_nanos: the signed count of
/// nanoseconds between the Unix epoch and the current instant. Nothing is
/// promised of the value: it depends on the clock.
#[verifier::external_body]
fn unix_timestamp_nanos_now() -> (r: i128) {
    time::OffsetDateTime::now_utc().unix_timestamp_nanos()
}

/// The signed nanosecond count clamped into the unsigned 64-bit range.
pub open spec fn clamp_to_u64(ns: int) -> u64 {
    if ns < 0 {
        0u64
    } else if ns > u64::MAX {
        u64::MAX
    } else {
        ns as u64
    }
}

impl NsSinceEpoch {
    /// Builds a timestamp from a raw signed nanosecond count, clamping
    /// instants before the epoch to zero and instants beyond the unsigned
    /// 64-bit range to the largest representable value.
    pub fn from_unix_nanos(ns: i128) -> (r: NsSinceEpoch)
        ensures
            r@ == clamp_to_u64(ns as int),
    {
        if ns < 0 {
            NsSinceEpoch(0)
        } else if ns > u64::MAX as i128 {
            NsSinceEpoch(u64::MAX)
        } else {
            NsSinceEpoch(ns as u64)
        }
    }

    /// Reads the wall clock. The value depends on the clock, so nothing is
    /// promised of it.
    pub fn now() -> (r: NsSinceEpoch) {
        NsSinceEpoch::from_unix_nanos(unix_timestamp_nanos_now())
    }
}

} // verus!
