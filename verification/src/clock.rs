//! Access to the wall clock. Time-dependent decisions in this library take the
//! current time as an argument; the functions here only read the clock.

use vstd::prelude::*;

verus! {

/// Milliseconds since the Unix epoch, read through `std::time::SystemTime::now()`.
/// The value depends on the machine's clock, so no clause is claimed of it
/// (a clock set before the epoch reads as 0).
#[verifier::external_body]
pub fn now_millis() -> u64 {
    std::time::SystemTime::now()
        .duration_since(std::time::UNIX_EPOCH)
        .map(|d| d.as_millis() as u64)
        .unwrap_or(0)
}

/// Milliseconds elapsed from `earlier` to `now`; zero when the clock reads earlier
/// than `earlier` (an elapsed time never goes negative).
pub open spec fn spec_elapsed(now: u64, earlier: u64) -> u64 {
    if now >= earlier { (now - earlier) as u64 } else { 0 }
}

/// Milliseconds elapsed from `earlier` to `now`, saturating at zero.
pub fn elapsed_ms(now: u64, earlier: u64) -> (r: u64)
    ensures
        r == spec_elapsed(now, earlier),
{
    if now >= earlier { now - earlier } else { 0 }
}

} // verus!
