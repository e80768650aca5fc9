//! Clock readings and the arithmetic on them.

use vstd::prelude::*;

verus! {

/// Nanoseconds in a millisecond.
pub const NANOS_PER_MS: u128 = 1_000_000;

/// The reading `ms` milliseconds after `now`.
pub open spec fn after_ms(now: int, ms: int) -> int {
    now + ms * NANOS_PER_MS
}

/// The clock reading `ms` milliseconds after `now`, which must be one that a
/// reading can hold.
pub fn later(now: u128, ms: u64) -> (r: u128)
    requires
        after_ms(now as int, ms as int) <= u128::MAX,
    ensures
        r == after_ms(now as int, ms as int),
        r == now + ms * 1_000_000,
{
    now + (ms as u128) * NANOS_PER_MS
}

} // verus!
