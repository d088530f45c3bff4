use vstd::prelude::*;

verus! {

/// A point in time as whole seconds and leftover nanoseconds since the Unix epoch.
pub struct Timestamp {
    pub secs: u64,
    pub nanos: u32,
}

/// A millisecond count narrowed to 32 bits, saturating at `u32::MAX`, as a
/// float-to-integer cast of the timestamp narrows it.
pub open spec fn saturated_u32(ms: u64) -> u32 {
    if ms > u32::MAX as u64 {
        u32::MAX
    } else {
        ms as u32
    }
}

/// Converts a JavaScript timestamp, in whole milliseconds since the epoch, to
/// seconds and nanoseconds.
pub fn from_tt(ms: u64) -> (r: Timestamp)
    ensures
        r.secs == ms / 1000,
        r.nanos == (saturated_u32(ms) % 1000) * 1_000_000,
        r.nanos < 1_000_000_000,
{
    let low: u32 = if ms > u32::MAX as u64 {
        u32::MAX
    } else {
        ms as u32
    };
    Timestamp { secs: ms / 1000, nanos: (low % 1000) * 1_000_000 }
}

} // verus!
