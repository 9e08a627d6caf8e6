//! Random numbers for the jitter of retry delays.

use vstd::prelude::*;

verus! {

/// A random value from `rand::random::<u64>()`, drawn from the thread's random number
/// generator. It depends on chance, so nothing is claimed of it.
#[verifier::external_body]
pub fn random_u64() -> u64 {
    rand::random::<u64>()
}

} // verus!
