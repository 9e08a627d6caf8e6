//! Retry manager with exponential backoff and jitter for storage operations.
//!
//! The loop that awaits the operation and sleeps runs outside this library; the delays and
//! the classification of errors are computed here.

use vstd::prelude::*;

use crate::big_nat::{from_u64, limbs_value, mul_small, div_small, power, to_u64_capped};
use crate::random::random_u64;
use vstd::arithmetic::div_mod::{lemma_div_by_multiple, lemma_div_denominator, lemma_div_is_ordered};
use crate::text::{chars_of, decimal, lowercase_of, occurs_in, push_decimal, str_contains, to_lowercase};
use vstd::string::StringExecFns;

verus! {

/// Retry configuration. Delays in milliseconds, multiplier in thousandths.
#[derive(Debug, Clone, Copy)]
pub struct RetryConfig {
    /// Maximum number of attempts.
    pub max_attempts: usize,
    /// Delay after the first failed attempt.
    pub base_delay_ms: u64,
    /// Upper bound of any delay.
    pub max_delay_ms: u64,
    /// Growth of the delay per attempt, in thousandths.
    pub backoff_multiplier_permille: u32,
    /// Whether a random jitter of up to a quarter of the delay is applied.
    pub jitter: bool,
}

impl Default for RetryConfig {
    /// 3 attempts, 100 ms base delay, at most 5 s, doubling, with jitter.
    fn default() -> (c: Self)
        ensures
            c.max_attempts == 3,
            c.base_delay_ms == 100,
            c.max_delay_ms == 5_000,
            c.backoff_multiplier_permille == 2000,
            c.jitter,
    {
        RetryConfig { max_attempts: 3, base_delay_ms: 100, max_delay_ms: 5_000, backoff_multiplier_permille: 2000, jitter: true }
    }
}

/// The exact exponential delay after `k` growth steps: the base delay times the multiplier
/// (in thousandths) to the power `k`, rounded down.
pub open spec fn exact_backoff(c: RetryConfig, k: nat) -> nat {
    ((c.base_delay_ms as nat) * power(c.backoff_multiplier_permille as nat, k)) / power(1000, k)
}

/// The exponential delay after `k` growth steps, capped at the maximum delay.
pub open spec fn backoff_delay(c: RetryConfig, k: nat) -> u64 {
    if exact_backoff(c, k) > c.max_delay_ms { c.max_delay_ms } else { exact_backoff(c, k) as u64 }
}

proof fn lemma_power_positive(b: nat, e: nat)
    requires
        b > 0,
    ensures
        power(b, e) > 0,
    decreases e,
{
    if e > 0 {
        lemma_power_positive(b, (e - 1) as nat);
        assert(b * power(b, (e - 1) as nat) > 0) by (nonlinear_arith)
            requires b > 0, power(b, (e - 1) as nat) > 0;
    }
}

/// `capped` moved by the random value `r` into `[capped - capped/4, capped + capped/4)`
/// (unchanged when `capped / 4 == 0`; saturating at `u64::MAX`).
pub open spec fn spec_jitter(capped: u64, r: u64) -> u64 {
    let q = capped / 4;
    if q == 0 {
        capped
    } else {
        let v = capped - q + (r as int) % (2 * q);
        if v > u64::MAX { u64::MAX } else { v as u64 }
    }
}

/// The delay before retrying after attempt `attempt` fails, for random value `r`.
pub open spec fn spec_delay(c: RetryConfig, attempt: nat, r: u64) -> u64 {
    let capped = backoff_delay(c, (attempt - 1) as nat);
    if c.jitter { spec_jitter(capped, r) } else { capped }
}

/// Whether an error message, lowercased, names a transient storage condition: a lock or a
/// busy resource, an I/O or connection error, an index not yet initialized, or a resource
/// temporarily unavailable.
pub open spec fn retriable_error_message(lower: Seq<char>) -> bool {
    ||| occurs_in(lower, "lock"@)
    ||| occurs_in(lower, "busy"@)
    ||| occurs_in(lower, "i/o error"@)
    ||| occurs_in(lower, "connection"@)
    ||| occurs_in(lower, "hnsw не инициализирован"@)
    ||| occurs_in(lower, "hnsw not initialized"@)
    ||| occurs_in(lower, "resource temporarily unavailable"@)
}

/// Retry manager with exponential backoff and jitter.
pub struct RetryManager {
    pub config: RetryConfig,
}

impl RetryManager {
    /// A manager with `config`.
    pub fn new(config: RetryConfig) -> (m: Self)
        ensures
            m.config == config,
    {
        RetryManager { config }
    }

    /// A manager with the default configuration.
    pub fn with_defaults() -> (m: Self)
        ensures
            m.config.max_attempts == 3,
            m.config.base_delay_ms == 100,
            m.config.max_delay_ms == 5_000,
            m.config.backoff_multiplier_permille == 2000,
            m.config.jitter,
    {
        RetryManager::new(RetryConfig::default())
    }

    /// Configuration for database operations: 5 attempts, 50 ms, at most 2 s, ×1.5, jitter.
    pub fn for_database() -> (m: Self)
        ensures
            m.config.max_attempts == 5,
            m.config.base_delay_ms == 50,
            m.config.max_delay_ms == 2_000,
            m.config.backoff_multiplier_permille == 1500,
            m.config.jitter,
    {
        RetryManager::new(RetryConfig { max_attempts: 5, base_delay_ms: 50, max_delay_ms: 2_000, backoff_multiplier_permille: 1500, jitter: true })
    }

    /// Configuration for index operations: 3 attempts, 100 ms, at most 1 s, doubling, no jitter.
    pub fn for_hnsw() -> (m: Self)
        ensures
            m.config.max_attempts == 3,
            m.config.base_delay_ms == 100,
            m.config.max_delay_ms == 1_000,
            m.config.backoff_multiplier_permille == 2000,
            !m.config.jitter,
    {
        RetryManager::new(RetryConfig { max_attempts: 3, base_delay_ms: 100, max_delay_ms: 1_000, backoff_multiplier_permille: 2000, jitter: false })
    }

    /// The capped exponential delay after `steps` growth steps, computed exactly.
    fn backoff(&self, steps: usize) -> (d: u64)
        ensures
            d == backoff_delay(self.config, steps as nat),
    {
        let c = self.config;
        let ghost m = c.backoff_multiplier_permille as nat;
        let mut n = from_u64(c.base_delay_ms);
        let mut k: usize = 0;
        proof {
            assert(power(m, 0) == 1);
        }
        while k < steps
            invariant
                k <= steps,
                c == self.config,
                m == c.backoff_multiplier_permille as nat,
                limbs_value(n@) == c.base_delay_ms * power(m, k as nat),
            decreases steps - k,
        {
            n = mul_small(&n, c.backoff_multiplier_permille);
            proof {
                assert(power(m, (k + 1) as nat) == m * power(m, k as nat));
                assert(c.base_delay_ms * power(m, k as nat) * m == c.base_delay_ms * power(m, (k + 1) as nat)) by (nonlinear_arith)
                    requires power(m, (k + 1) as nat) == m * power(m, k as nat);
            }
            k = k + 1;
        }
        let ghost grown: nat = (c.base_delay_ms as nat) * power(m, steps as nat);
        let mut j: usize = 0;
        proof {
            assert(power(1000, 0) == 1);
        }
        while j < steps
            invariant
                j <= steps,
                c == self.config,
                m == c.backoff_multiplier_permille as nat,
                grown == (c.base_delay_ms as nat) * power(m, steps as nat),
                limbs_value(n@) == grown / power(1000, j as nat),
            decreases steps - j,
        {
            n = div_small(&n, 1000);
            proof {
                lemma_power_positive(1000, j as nat);
                assert(power(1000, (j + 1) as nat) == 1000 * power(1000, j as nat));
                lemma_div_denominator(grown as int, power(1000, j as nat) as int, 1000);
                assert(power(1000, j as nat) * 1000 == power(1000, (j + 1) as nat)) by (nonlinear_arith)
                    requires power(1000, (j + 1) as nat) == 1000 * power(1000, j as nat);
            }
            j = j + 1;
        }
        to_u64_capped(&n, c.max_delay_ms)
    }

    /// The delay with jitter for the random value `r`.
    pub fn delay_for(&self, attempt: usize, r: u64) -> (d: u64)
        requires
            attempt >= 1,
        ensures
            d == spec_delay(self.config, attempt as nat, r),
    {
        let capped = self.backoff(attempt - 1);
        if !self.config.jitter {
            return capped;
        }
        let q = capped / 4;
        if q == 0 {
            capped
        } else {
            let v: u128 = (capped - q) as u128 + (r % (2 * q)) as u128;
            if v > u64::MAX as u128 { u64::MAX } else { v as u64 }
        }
    }

    /// The delay before retrying after attempt `attempt` (counting from 1) failed: exponential
    /// backoff capped at the maximum, with random jitter when configured.
    pub fn calculate_delay(&self, attempt: usize) -> (d: u64)
        requires
            attempt >= 1,
        ensures
            exists|r: u64| d == #[trigger] spec_delay(self.config, attempt as nat, r),
            !self.config.jitter ==> d == backoff_delay(self.config, (attempt - 1) as nat),
    {
        let r = random_u64();
        let d = self.delay_for(attempt, r);
        assert(d == spec_delay(self.config, attempt as nat, r));
        d
    }

    /// Whether the retry loop sleeps after attempt `attempt` failed: it does unless that was
    /// the last attempt.
    pub fn waits_after(&self, attempt: usize) -> (r: bool)
        ensures
            r == (attempt < self.config.max_attempts),
    {
        attempt < self.config.max_attempts
    }

    /// Whether an error with this message is worth retrying (see `retriable_error_message`).
    pub fn is_retriable_error(message: &str) -> (r: bool)
        ensures
            r == retriable_error_message(lowercase_of(message@)),
    {
        let lower = to_lowercase(message);
        let hay = chars_of(lower.as_str());
        str_contains(&hay, "lock")
            || str_contains(&hay, "busy")
            || str_contains(&hay, "i/o error")
            || str_contains(&hay, "connection")
            || str_contains(&hay, "hnsw не инициализирован")
            || str_contains(&hay, "hnsw not initialized")
            || str_contains(&hay, "resource temporarily unavailable")
    }
}

/// The error of an operation that failed on every attempt: its name, the number of attempts
/// and the last error's text (`Unknown error` when there was none).
pub open spec fn spec_retry_failure(name: Seq<char>, max_attempts: usize, last_error: Option<Seq<char>>) -> Seq<char> {
    "Operation "@ + name + " failed after "@ + decimal(max_attempts as nat) + " attempts. Last error: "@
        + match last_error { Some(e) => e, None => "Unknown error"@ }
}

/// The error of an operation that failed on every attempt.
pub fn retry_failure_message(name: &str, max_attempts: usize, last_error: Option<&str>) -> (m: String)
    ensures
        m@ == spec_retry_failure(name@, max_attempts, match last_error { Some(e) => Some(e@), None => None }),
{
    let mut m = String::from_str("Operation ");
    m.append(name);
    m.append(" failed after ");
    push_decimal(&mut m, max_attempts as u64);
    m.append(" attempts. Last error: ");
    match last_error {
        Some(e) => m.append(e),
        None => m.append("Unknown error"),
    }
    m
}

/// The un-jittered delays never exceed the maximum and never shrink from one attempt to the
/// next when the multiplier is at least one.
pub proof fn lemma_backoff_monotone(c: RetryConfig, k: nat)
    requires
        c.backoff_multiplier_permille >= 1000,
    ensures
        backoff_delay(c, k) <= c.max_delay_ms,
        backoff_delay(c, k) <= backoff_delay(c, k + 1),
{
    let m = c.backoff_multiplier_permille as nat;
    let x = c.base_delay_ms * power(m, k);
    let d = power(1000, k);
    lemma_power_positive(1000, k);
    assert(power(m, k + 1) == m * power(m, k));
    assert(power(1000, k + 1) == 1000 * power(1000, k));
    assert(c.base_delay_ms * power(m, k + 1) == x * m) by (nonlinear_arith)
        requires power(m, k + 1) == m * power(m, k), x == c.base_delay_ms * power(m, k);
    assert(x * 1000 <= x * m) by (nonlinear_arith)
        requires m >= 1000, x >= 0;
    lemma_div_is_ordered((x * 1000) as int, (x * m) as int, (d * 1000) as int);
    lemma_div_denominator((x * 1000) as int, 1000, d as int);
    lemma_div_by_multiple(x as int, 1000);
    assert(1000 * d == d * 1000) by (nonlinear_arith);
    assert(exact_backoff(c, k) <= exact_backoff(c, k + 1));
}

} // verus!
