//! Event counters that wrap to zero past `u64::MAX`, as atomic counters do.

use vstd::prelude::*;

verus! {

/// The counter after one more event.
pub open spec fn bump(n: u64) -> u64 {
    if n < u64::MAX { (n + 1) as u64 } else { 0 }
}

/// The counter after `k` more events.
pub open spec fn bumped(n: u64, k: nat) -> u64
    decreases k,
{
    if k == 0 { n } else { bump(bumped(n, (k - 1) as nat)) }
}

/// Counts one more event.
pub fn bump_exec(n: u64) -> (r: u64)
    ensures
        r == bump(n),
{
    if n < u64::MAX { n + 1 } else { 0 }
}

} // verus!
