//! Retry policies with exponential backoff and jitter.
//!
//! The retry loop itself awaits the operation and sleeps, so it runs outside this library;
//! every decision it takes (whether an error is worth retrying, whether attempts are left,
//! how long to wait, how the wait grows) is made here.

use vstd::prelude::*;

use crate::random::random_u64;
use crate::text::{chars_of, occurs_in, str_contains, to_lowercase, lowercase_of};

verus! {

/// Retry policy. Delays are in milliseconds; the backoff multiplier is in thousandths
/// (2000 doubles the delay after each failed attempt).
#[derive(Debug, Clone, Copy)]
pub struct RetryPolicy {
    /// Maximum number of attempts (the first attempt included).
    pub max_attempts: u32,
    /// Delay before the second attempt.
    pub initial_delay_ms: u64,
    /// Upper bound of any delay.
    pub max_delay_ms: u64,
    /// Growth of the delay after each failure, in thousandths.
    pub backoff_multiplier_permille: u32,
    /// Whether a random jitter of up to a quarter of the delay is applied.
    pub jitter: bool,
}

impl Default for RetryPolicy {
    /// 3 attempts, 100 ms initial delay, at most 10 s, doubling, with jitter.
    fn default() -> (p: Self)
        ensures
            p.max_attempts == 3,
            p.initial_delay_ms == 100,
            p.max_delay_ms == 10_000,
            p.backoff_multiplier_permille == 2000,
            p.jitter,
    {
        RetryPolicy { max_attempts: 3, initial_delay_ms: 100, max_delay_ms: 10_000, backoff_multiplier_permille: 2000, jitter: true }
    }
}

impl RetryPolicy {
    /// Policy for low-latency operations: 2 attempts, 50 ms, at most 1 s, ×1.5, with jitter.
    pub fn fast() -> (p: Self)
        ensures
            p.max_attempts == 2,
            p.initial_delay_ms == 50,
            p.max_delay_ms == 1_000,
            p.backoff_multiplier_permille == 1500,
            p.jitter,
    {
        RetryPolicy { max_attempts: 2, initial_delay_ms: 50, max_delay_ms: 1_000, backoff_multiplier_permille: 1500, jitter: true }
    }

    /// Policy for critical operations: 5 attempts, 200 ms, at most 30 s, ×2.5, with jitter.
    pub fn aggressive() -> (p: Self)
        ensures
            p.max_attempts == 5,
            p.initial_delay_ms == 200,
            p.max_delay_ms == 30_000,
            p.backoff_multiplier_permille == 2500,
            p.jitter,
    {
        RetryPolicy { max_attempts: 5, initial_delay_ms: 200, max_delay_ms: 30_000, backoff_multiplier_permille: 2500, jitter: true }
    }

    /// No retries: a single attempt, no delay, no jitter.
    pub fn none() -> (p: Self)
        ensures
            p.max_attempts == 1,
            p.initial_delay_ms == 0,
            p.max_delay_ms == 0,
            p.backoff_multiplier_permille == 1000,
            !p.jitter,
    {
        RetryPolicy { max_attempts: 1, initial_delay_ms: 0, max_delay_ms: 0, backoff_multiplier_permille: 1000, jitter: false }
    }
}

/// Outcome of a retried operation.
#[derive(Debug)]
pub enum RetryResult<T> {
    /// Success, with the number of attempts it took.
    Success(T, u32),
    /// Every attempt failed with a retriable error.
    ExhaustedRetries(anyhow::Error),
    /// An attempt failed with an error that is not retried.
    NonRetriable(anyhow::Error),
}

impl<T> RetryResult<T> {
    /// The value on success, the error otherwise.
    pub fn into_result(self) -> (r: Result<T, anyhow::Error>)
        ensures
            match self {
                RetryResult::Success(v, _) => r == Ok::<T, anyhow::Error>(v),
                RetryResult::ExhaustedRetries(e) => r == Err::<T, anyhow::Error>(e),
                RetryResult::NonRetriable(e) => r == Err::<T, anyhow::Error>(e),
            },
    {
        match self {
            RetryResult::Success(value, _) => Ok(value),
            RetryResult::ExhaustedRetries(e) => Err(e),
            RetryResult::NonRetriable(e) => Err(e),
        }
    }

    /// The number of attempts of a success; 0 for a failure.
    pub fn attempts(&self) -> (n: u32)
        ensures
            n == match self {
                RetryResult::Success(_, a) => *a,
                _ => 0u32,
            },
    {
        match self {
            RetryResult::Success(_, attempts) => *attempts,
            _ => 0,
        }
    }
}

/// Whether an error message, already lowercased, names a transient condition: a timeout, a
/// connection or network problem, a temporary failure, a locked database or exhausted memory
/// or file handles.
pub open spec fn retriable_message(lower: Seq<char>) -> bool {
    ||| occurs_in(lower, "timeout"@)
    ||| occurs_in(lower, "connection"@)
    ||| occurs_in(lower, "network"@)
    ||| occurs_in(lower, "temporary"@)
    ||| occurs_in(lower, "database locked"@)
    ||| occurs_in(lower, "database is locked"@)
    ||| occurs_in(lower, "out of memory"@)
    ||| occurs_in(lower, "too many open files"@)
}

/// The delay after `current`: `current` scaled by the multiplier (thousandths, rounded down),
/// capped at `max`.
pub open spec fn spec_next_delay(current: u64, multiplier_permille: u32, max: u64) -> u64 {
    let next = current * multiplier_permille / 1000;
    if next > max { max } else { next as u64 }
}

/// The base delay before attempt `k + 2`, after `k` growth steps from the initial delay.
pub open spec fn delay_after_steps(p: RetryPolicy, k: nat) -> u64
    decreases k,
{
    if k == 0 {
        p.initial_delay_ms
    } else {
        spec_next_delay(delay_after_steps(p, (k - 1) as nat), p.backoff_multiplier_permille, p.max_delay_ms)
    }
}

/// A delay with jitter: `base` moved into `[base - base/4, base + base/4)` by the random
/// value `r` (unchanged when `base / 4 == 0`; saturating at `u64::MAX`).
pub open spec fn spec_jittered(base: u64, r: u64) -> u64 {
    let q = base / 4;
    if q == 0 {
        base
    } else {
        let v = base - q + (r as int) % (2 * q);
        if v > u64::MAX { u64::MAX } else { v as u64 }
    }
}

/// The time waited for base delay `base` and random value `r` under a policy with or
/// without jitter.
pub open spec fn spec_wait(jitter: bool, base: u64, r: u64) -> u64 {
    if jitter { spec_jittered(base, r) } else { base }
}

/// What the retry loop does after a failed attempt.
#[derive(Debug, Clone, Copy, PartialEq, Eq, Structural)]
pub enum RetryDecision {
    /// Stop: the error is not worth retrying.
    GiveUpNonRetriable,
    /// Stop: no attempts are left.
    GiveUpExhausted,
    /// Sleep `wait_ms`, then try again; the base delay for the failure after that is `next_delay_ms`.
    RetryAfter { wait_ms: u64, next_delay_ms: u64 },
}

/// The decision after attempt `attempt` failed, given whether its error is retriable and the
/// current base delay; `wait` is the (possibly jittered) time to sleep.
pub open spec fn spec_decide(p: RetryPolicy, attempt: u32, retriable: bool, delay: u64, wait: u64) -> RetryDecision {
    if !retriable {
        RetryDecision::GiveUpNonRetriable
    } else if attempt >= p.max_attempts {
        RetryDecision::GiveUpExhausted
    } else {
        RetryDecision::RetryAfter { wait_ms: wait, next_delay_ms: spec_next_delay(delay, p.backoff_multiplier_permille, p.max_delay_ms) }
    }
}

/// Handler that applies a retry policy.
pub struct RetryHandler {
    pub policy: RetryPolicy,
}

impl RetryHandler {
    /// A handler for `policy`.
    pub fn new(policy: RetryPolicy) -> (h: Self)
        ensures
            h.policy == policy,
    {
        RetryHandler { policy }
    }

    /// Whether an error with this message is worth retrying: its lowercased text mentions a
    /// transient condition (see `retriable_message`).
    pub fn is_retriable(&self, message: &str) -> (r: bool)
        ensures
            r == retriable_message(lowercase_of(message@)),
    {
        let lower = to_lowercase(message);
        let hay = chars_of(lower.as_str());
        str_contains(&hay, "timeout")
            || str_contains(&hay, "connection")
            || str_contains(&hay, "network")
            || str_contains(&hay, "temporary")
            || str_contains(&hay, "database locked")
            || str_contains(&hay, "database is locked")
            || str_contains(&hay, "out of memory")
            || str_contains(&hay, "too many open files")
    }

    /// The delay with jitter applied for the random value `r` (no jitter: `base` itself).
    pub fn jittered_delay(&self, base_ms: u64, r: u64) -> (d: u64)
        ensures
            d == spec_wait(self.policy.jitter, base_ms, r),
            base_ms - base_ms / 4 <= d <= base_ms + base_ms / 4,
    {
        if !self.policy.jitter {
            return base_ms;
        }
        let q = base_ms / 4;
        if q == 0 {
            base_ms
        } else {
            let v: u128 = (base_ms - q) as u128 + (r % (2 * q)) as u128;
            if v > u64::MAX as u128 { u64::MAX } else { v as u64 }
        }
    }

    /// The time to sleep before the next attempt: `base_ms` with a random jitter of up to a
    /// quarter either way when the policy asks for jitter.
    pub fn calculate_delay(&self, base_ms: u64) -> (d: u64)
        ensures
            exists|r: u64| d == #[trigger] spec_wait(self.policy.jitter, base_ms, r),
            !self.policy.jitter ==> d == base_ms,
            base_ms - base_ms / 4 <= d <= base_ms + base_ms / 4,
    {
        let r = random_u64();
        let d = self.jittered_delay(base_ms, r);
        assert(d == spec_wait(self.policy.jitter, base_ms, r));
        d
    }

    /// The next base delay: `current` times the multiplier, capped at the policy's maximum.
    pub fn next_delay(&self, current_ms: u64) -> (d: u64)
        ensures
            d == spec_next_delay(current_ms, self.policy.backoff_multiplier_permille, self.policy.max_delay_ms),
    {
        assert((current_ms as u128) * (self.policy.backoff_multiplier_permille as u128) <= (u64::MAX as u128) * (u32::MAX as u128)) by (nonlinear_arith);
        let next: u128 = (current_ms as u128) * (self.policy.backoff_multiplier_permille as u128) / 1000;
        if next > self.policy.max_delay_ms as u128 {
            self.policy.max_delay_ms
        } else {
            next as u64
        }
    }

    /// The decision after attempt number `attempt` (counting from 1) failed: give up when the
    /// error is not retriable or no attempts are left, otherwise wait (with jitter) and grow
    /// the delay.
    pub fn decide_after_failure(&self, attempt: u32, retriable: bool, delay_ms: u64) -> (d: RetryDecision)
        ensures
            exists|wait: u64| d == #[trigger] spec_decide(self.policy, attempt, retriable, delay_ms, wait)
                && delay_ms - delay_ms / 4 <= wait <= delay_ms + delay_ms / 4,
    {
        if !retriable {
            assert(spec_decide(self.policy, attempt, retriable, delay_ms, delay_ms) == RetryDecision::GiveUpNonRetriable);
            return RetryDecision::GiveUpNonRetriable;
        }
        if attempt >= self.policy.max_attempts {
            assert(spec_decide(self.policy, attempt, retriable, delay_ms, delay_ms) == RetryDecision::GiveUpExhausted);
            return RetryDecision::GiveUpExhausted;
        }
        let wait = self.calculate_delay(delay_ms);
        let next = self.next_delay(delay_ms);
        let d = RetryDecision::RetryAfter { wait_ms: wait, next_delay_ms: next };
        assert(d == spec_decide(self.policy, attempt, retriable, delay_ms, wait));
        d
    }
}

/// The retry loop never makes more than `max(1, max_attempts)` attempts: after a retriable
/// failure of attempt `k` it retries exactly when `k < max_attempts`.
pub proof fn lemma_attempts_bounded(p: RetryPolicy, attempt: u32, delay: u64, wait: u64)
    requires
        attempt >= 1,
    ensures
        (spec_decide(p, attempt, true, delay, wait) is RetryAfter) <==> attempt < p.max_attempts,
        spec_decide(p, attempt, false, delay, wait) == RetryDecision::GiveUpNonRetriable,
{
}

/// The base delays never exceed the maximum once the first has been grown, and they never
/// decrease when the multiplier is at least one and the initial delay is within the maximum.
pub proof fn lemma_delays_bounded_and_growing(p: RetryPolicy, k: nat)
    requires
        p.backoff_multiplier_permille >= 1000,
        p.initial_delay_ms <= p.max_delay_ms,
    ensures
        delay_after_steps(p, k) <= p.max_delay_ms,
        delay_after_steps(p, k) <= delay_after_steps(p, k + 1),
    decreases k,
{
    let d = delay_after_steps(p, k);
    if k > 0 {
        lemma_delays_bounded_and_growing(p, (k - 1) as nat);
    }
    assert(d * p.backoff_multiplier_permille >= d * 1000) by (nonlinear_arith)
        requires p.backoff_multiplier_permille >= 1000;
    assert(d * p.backoff_multiplier_permille / 1000 >= d) by (nonlinear_arith)
        requires d * p.backoff_multiplier_permille >= d * 1000;
}

/// Builder for a `RetryHandler`, starting from the default policy.
pub struct RetryHandlerBuilder {
    pub policy: RetryPolicy,
}

impl RetryHandlerBuilder {
    /// A builder holding the default policy.
    pub fn new() -> (b: Self)
        ensures
            b.policy.max_attempts == 3,
            b.policy.initial_delay_ms == 100,
            b.policy.max_delay_ms == 10_000,
            b.policy.backoff_multiplier_permille == 2000,
            b.policy.jitter,
    {
        RetryHandlerBuilder { policy: RetryPolicy::default() }
    }

    /// Sets the maximum number of attempts.
    pub fn max_attempts(self, attempts: u32) -> (b: Self)
        ensures
            b.policy == (RetryPolicy { max_attempts: attempts, ..self.policy }),
    {
        let mut b = self;
        b.policy.max_attempts = attempts;
        b
    }

    /// Sets the initial delay (milliseconds).
    pub fn initial_delay(self, delay_ms: u64) -> (b: Self)
        ensures
            b.policy == (RetryPolicy { initial_delay_ms: delay_ms, ..self.policy }),
    {
        let mut b = self;
        b.policy.initial_delay_ms = delay_ms;
        b
    }

    /// Sets the maximum delay (milliseconds).
    pub fn max_delay(self, delay_ms: u64) -> (b: Self)
        ensures
            b.policy == (RetryPolicy { max_delay_ms: delay_ms, ..self.policy }),
    {
        let mut b = self;
        b.policy.max_delay_ms = delay_ms;
        b
    }

    /// Sets the backoff multiplier (thousandths).
    pub fn backoff_multiplier(self, multiplier_permille: u32) -> (b: Self)
        ensures
            b.policy == (RetryPolicy { backoff_multiplier_permille: multiplier_permille, ..self.policy }),
    {
        let mut b = self;
        b.policy.backoff_multiplier_permille = multiplier_permille;
        b
    }

    /// Turns jitter on or off.
    pub fn with_jitter(self, jitter: bool) -> (b: Self)
        ensures
            b.policy == (RetryPolicy { jitter: jitter, ..self.policy }),
    {
        let mut b = self;
        b.policy.jitter = jitter;
        b
    }

    /// A handler with the built policy.
    pub fn build(self) -> (h: RetryHandler)
        ensures
            h.policy == self.policy,
    {
        RetryHandler::new(self.policy)
    }
}

} // verus!
