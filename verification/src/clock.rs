//! The steady clock: a counter that only the passing of time moves.

use vstd::prelude::*;

verus! {

/// How many nanoseconds make a millisecond.
pub const NANOS_PER_MILLI: u64 = 1_000_000;

/// The largest reading that `steady_now_ms` can give.
pub const MAX_STEADY_MS: i64 = 18_446_744_073_709;

/// `time::precise_time_ns` reads a high-resolution counter, in nanoseconds
/// since a moment that is not specified. Nothing is claimed of the reading.
pub assume_specification[ time::precise_time_ns ]() -> (ns: u64);

/// The reading of the steady clock, in whole milliseconds.
pub fn steady_now_ms() -> (now: i64)
    ensures
        0 <= now <= MAX_STEADY_MS,
{
    let ns: u64 = time::precise_time_ns();
    millis_of_nanos(ns)
}

/// The whole milliseconds in `ns` nanoseconds.
pub fn millis_of_nanos(ns: u64) -> (ms: i64)
    ensures
        ms == ns / NANOS_PER_MILLI,
        0 <= ms <= MAX_STEADY_MS,
{
    (ns / NANOS_PER_MILLI) as i64
}

} // verus!
