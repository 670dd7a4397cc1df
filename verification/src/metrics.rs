//! Serving counters exported as Prometheus metrics.

use vstd::prelude::*;

verus! {

/// Running totals of the inference server. Counters wrap around on overflow, as
/// atomic additions do.
#[derive(Debug, Clone, PartialEq, Eq)]
pub struct ServerMetrics {
    pub requests_total: u64,
    pub tokens_generated_total: u64,
    pub total_latency_ms: u64,
    pub model_load_time_ms: u64,
}

/// `a + b` modulo 2^64.
pub open spec fn wrapping_add_u64(a: u64, b: u64) -> u64 {
    if a + b <= u64::MAX {
        (a + b) as u64
    } else {
        (a + b - u64::MAX - 1) as u64
    }
}

impl Default for ServerMetrics {
    fn default() -> (r: Self)
        ensures
            r.requests_total == 0,
            r.tokens_generated_total == 0,
            r.total_latency_ms == 0,
            r.model_load_time_ms == 0,
    {
        ServerMetrics {
            requests_total: 0,
            tokens_generated_total: 0,
            total_latency_ms: 0,
            model_load_time_ms: 0,
        }
    }
}

impl ServerMetrics {
    /// Counts one finished request that generated `tokens` tokens in `latency_ms`.
    pub fn record_request(&mut self, tokens: u64, latency_ms: u64)
        ensures
            final(self).requests_total == wrapping_add_u64(old(self).requests_total, 1),
            final(self).tokens_generated_total == wrapping_add_u64(
                old(self).tokens_generated_total,
                tokens,
            ),
            final(self).total_latency_ms == wrapping_add_u64(old(self).total_latency_ms, latency_ms),
            final(self).model_load_time_ms == old(self).model_load_time_ms,
    {
        self.requests_total = self.requests_total.wrapping_add(1);
        self.tokens_generated_total = self.tokens_generated_total.wrapping_add(tokens);
        self.total_latency_ms = self.total_latency_ms.wrapping_add(latency_ms);
    }
}

} // verus!
