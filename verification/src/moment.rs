//! Points on the tracker's monotonic clock.

use vstd::prelude::*;

verus! {

/// Number of nanoseconds in one second.
pub const NANOS_PER_SECOND: u64 = 1_000_000_000;

/// A point in time: nanoseconds since the origin of a monotonic clock, which
/// the caller picks (the start of the process, say). The largest value stands
/// for every later point.
#[derive(Clone, Copy, Debug, PartialEq, Eq, Structural)]
pub struct Moment {
    pub nanos: u64,
}

/// The nanosecond count of a point `secs` whole seconds and `subsec_nanos`
/// nanoseconds after the origin, held at the largest count that a `Moment`
/// has.
pub open spec fn nanos_of_parts(secs: u64, subsec_nanos: u32) -> int {
    let exact = secs * NANOS_PER_SECOND + subsec_nanos;
    if exact <= u64::MAX {
        exact
    } else {
        u64::MAX as int
    }
}

/// Whole seconds from `start` to `end`, rounded down; zero when `end` is not
/// after `start`.
pub open spec fn elapsed_seconds(start: Moment, end: Moment) -> nat {
    if end.nanos >= start.nanos {
        ((end.nanos - start.nanos) / (NANOS_PER_SECOND as int)) as nat
    } else {
        0
    }
}

impl Moment {
    /// The point `nanos` nanoseconds after the origin.
    pub fn from_nanos(nanos: u64) -> (moment: Moment)
        ensures
            moment.nanos == nanos,
    {
        Moment { nanos }
    }

    /// The point `secs` seconds and `subsec_nanos` nanoseconds after the
    /// origin, or the last point of the clock where that is out of its range.
    pub fn from_parts(secs: u64, subsec_nanos: u32) -> (moment: Moment)
        ensures
            moment.nanos == nanos_of_parts(secs, subsec_nanos),
    {
        match secs.checked_mul(NANOS_PER_SECOND) {
            Some(whole) => match whole.checked_add(subsec_nanos as u64) {
                Some(nanos) => Moment { nanos },
                None => Moment { nanos: u64::MAX },
            },
            None => Moment { nanos: u64::MAX },
        }
    }

    /// The point `secs` whole seconds after the origin, or the last point of
    /// the clock where that is out of its range.
    pub fn from_secs(secs: u64) -> (moment: Moment)
        ensures
            moment.nanos == nanos_of_parts(secs, 0),
    {
        Moment::from_parts(secs, 0)
    }

    /// Whole seconds from `self` to `later`, rounded down; zero when `later`
    /// is not after `self`.
    pub fn seconds_until(&self, later: Moment) -> (secs: u64)
        ensures
            secs == elapsed_seconds(*self, later),
    {
        if later.nanos >= self.nanos {
            (later.nanos - self.nanos) / NANOS_PER_SECOND
        } else {
            0
        }
    }
}

/// Elapsed seconds are rounded down: two points count more than one second
/// exactly when they are two full seconds or more apart, and never more
/// seconds than the later point is from the origin.
pub proof fn law_elapsed_seconds_round_down(start: Moment, end: Moment)
    ensures
        elapsed_seconds(start, end) <= end.nanos / NANOS_PER_SECOND,
        elapsed_seconds(start, end) > 1 <==> end.nanos >= start.nanos + 2 * NANOS_PER_SECOND,
        elapsed_seconds(start, end) * NANOS_PER_SECOND <= end.nanos - start.nanos || end.nanos
            < start.nanos,
{
}

} // verus!
