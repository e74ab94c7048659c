//! Spans of time.
use vstd::prelude::*;

verus! {

/// A span of time in nanoseconds, wide enough for every `std::time::Duration`.
pub type Nanos = u128;

/// Nanoseconds in a millisecond.
pub const MILLISECOND: Nanos = 1_000_000;

/// Nanoseconds in a second.
pub const SECOND: Nanos = 1_000_000_000;

/// A second is a thousand milliseconds, and a millisecond a million nanoseconds.
pub proof fn law_units_of_time()
    ensures
        MILLISECOND == 1_000_000,
        SECOND == 1000 * MILLISECOND,
{
}

} // verus!
