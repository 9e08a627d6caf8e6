//! Bookkeeping of the bridge to the Qwen3 embedding provider: how many requests it served,
//! through the provider or through the fallback service, and how long they took.
//!
//! The provider and the fallback service are called outside this library; what they report
//! is recorded here. Latencies are whole milliseconds, and the average latency is kept as
//! the exact fraction it is computed from.

use vstd::prelude::*;
use vstd::string::StringExecFns;

verus! {

/// Embedding dimension of the Qwen3 model.
pub const QWEN3_EMBEDDING_DIM: usize = 1024;

/// Performance counters of the bridge.
#[derive(Debug, Clone, Copy, PartialEq, Eq, Structural)]
pub struct BridgeMetrics {
    pub total_requests: u64,
    pub successful_requests: u64,
    pub failed_requests: u64,
    pub qwen3_requests: u64,
    pub fallback_requests: u64,
    /// The average latency is `avg_latency_total_ms / avg_latency_divisor`.
    pub avg_latency_total_ms: u64,
    pub avg_latency_divisor: u64,
    pub total_latency_ms: u64,
}

impl BridgeMetrics {
    /// No requests yet; the average latency is zero.
    pub fn new() -> (m: Self)
        ensures
            m == (BridgeMetrics {
                total_requests: 0,
                successful_requests: 0,
                failed_requests: 0,
                qwen3_requests: 0,
                fallback_requests: 0,
                avg_latency_total_ms: 0,
                avg_latency_divisor: 1,
                total_latency_ms: 0,
            }),
    {
        BridgeMetrics {
            total_requests: 0,
            successful_requests: 0,
            failed_requests: 0,
            qwen3_requests: 0,
            fallback_requests: 0,
            avg_latency_total_ms: 0,
            avg_latency_divisor: 1,
            total_latency_ms: 0,
        }
    }

    /// `count` texts were asked for.
    pub fn record_requests(&mut self, count: u64)
        requires
            old(self).total_requests + count <= u64::MAX,
        ensures
            *final(self) == (BridgeMetrics { total_requests: (old(self).total_requests + count) as u64, ..*old(self) }),
    {
        self.total_requests = self.total_requests + count;
    }

    /// The provider embedded `count` texts in `latency_ms`; the average latency becomes the
    /// total latency over the successful requests.
    pub fn record_provider_success(&mut self, count: u64, latency_ms: u64)
        requires
            old(self).successful_requests + count <= u64::MAX,
            old(self).qwen3_requests + count <= u64::MAX,
            old(self).total_latency_ms + latency_ms <= u64::MAX,
            old(self).successful_requests + count > 0,
        ensures
            *final(self) == (BridgeMetrics {
                successful_requests: (old(self).successful_requests + count) as u64,
                qwen3_requests: (old(self).qwen3_requests + count) as u64,
                total_latency_ms: (old(self).total_latency_ms + latency_ms) as u64,
                avg_latency_total_ms: (old(self).total_latency_ms + latency_ms) as u64,
                avg_latency_divisor: (old(self).successful_requests + count) as u64,
                ..*old(self)
            }),
    {
        self.successful_requests = self.successful_requests + count;
        self.qwen3_requests = self.qwen3_requests + count;
        self.total_latency_ms = self.total_latency_ms + latency_ms;
        self.avg_latency_total_ms = self.total_latency_ms;
        self.avg_latency_divisor = self.successful_requests;
    }

    /// The provider failed on `count` texts.
    pub fn record_provider_failure(&mut self, count: u64)
        requires
            old(self).failed_requests + count <= u64::MAX,
        ensures
            *final(self) == (BridgeMetrics { failed_requests: (old(self).failed_requests + count) as u64, ..*old(self) }),
    {
        self.failed_requests = self.failed_requests + count;
    }

    /// The fallback service embedded `count` texts in `latency_ms`. For a single text the
    /// average latency becomes the total latency over one more than the successful requests;
    /// for a batch it is left as it was.
    pub fn record_fallback_success(&mut self, count: u64, latency_ms: u64, single: bool)
        requires
            old(self).fallback_requests + count <= u64::MAX,
            old(self).total_latency_ms + latency_ms <= u64::MAX,
            single ==> old(self).successful_requests + 1 <= u64::MAX,
        ensures
            final(self).fallback_requests == old(self).fallback_requests + count,
            final(self).total_latency_ms == old(self).total_latency_ms + latency_ms,
            final(self).avg_latency_total_ms == (if single { final(self).total_latency_ms } else { old(self).avg_latency_total_ms }),
            final(self).avg_latency_divisor == (if single { (old(self).successful_requests + 1) as u64 } else { old(self).avg_latency_divisor }),
            final(self).total_requests == old(self).total_requests,
            final(self).successful_requests == old(self).successful_requests,
            final(self).failed_requests == old(self).failed_requests,
            final(self).qwen3_requests == old(self).qwen3_requests,
    {
        self.fallback_requests = self.fallback_requests + count;
        self.total_latency_ms = self.total_latency_ms + latency_ms;
        if single {
            self.avg_latency_total_ms = self.total_latency_ms;
            self.avg_latency_divisor = self.successful_requests + 1;
        }
    }
}

/// The error reported when both the provider and the fallback service failed.
pub open spec fn spec_both_failed_message(batch: bool, provider_error: Seq<char>, fallback_error: Seq<char>) -> Seq<char> {
    (if batch { "Все batch embedding методы неудачны: Qwen3: "@ } else { "Все embedding методы неудачны: Qwen3: "@ })
        + provider_error + ", Fallback: "@ + fallback_error
}

/// The error reported when both the provider and the fallback service failed.
pub fn both_failed_message(batch: bool, provider_error: &str, fallback_error: &str) -> (m: String)
    ensures
        m@ == spec_both_failed_message(batch, provider_error@, fallback_error@),
{
    let mut m = if batch {
        String::from_str("Все batch embedding методы неудачны: Qwen3: ")
    } else {
        String::from_str("Все embedding методы неудачны: Qwen3: ")
    };
    m.append(provider_error);
    m.append(", Fallback: ");
    m.append(fallback_error);
    m
}

} // verus!
