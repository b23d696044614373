//! Points on a monotonic clock, counted in nanoseconds.

use vstd::prelude::*;

verus! {

/// The number of nanoseconds in one second.
pub const NANOS_PER_SEC: u64 = 1_000_000_000;

/// A point on a monotonic clock: nanoseconds since the clock's origin.
#[derive(Clone, Copy, Debug, PartialEq, Eq, Structural)]
pub struct Timestamp {
    pub nanos: u64,
}

impl View for Timestamp {
    type V = nat;

    open spec fn view(&self) -> nat {
        self.nanos as nat
    }
}

/// The nanosecond count of `secs` whole seconds and `subsec_nanos` further
/// nanoseconds, cut off at the largest count a `Timestamp` can hold.
pub open spec fn saturated_nanos(secs: nat, subsec_nanos: nat) -> nat {
    let total = secs * (NANOS_PER_SEC as nat) + subsec_nanos;
    if total <= u64::MAX as nat {
        total
    } else {
        u64::MAX as nat
    }
}

impl Timestamp {
    /// The point `secs` seconds and `subsec_nanos` nanoseconds after the origin.
    /// A point beyond the clock's range is placed at the end of the range.
    pub fn from_parts(secs: u64, subsec_nanos: u32) -> (t: Timestamp)
        ensures
            t@ == saturated_nanos(secs as nat, subsec_nanos as nat),
    {
        assert(secs * NANOS_PER_SEC <= u64::MAX * NANOS_PER_SEC) by (nonlinear_arith)
            requires
                secs <= u64::MAX,
        ;
        let total: u128 = (secs as u128) * (NANOS_PER_SEC as u128) + (subsec_nanos as u128);
        if total <= u64::MAX as u128 {
            Timestamp { nanos: total as u64 }
        } else {
            Timestamp { nanos: u64::MAX }
        }
    }
}

} // verus!
