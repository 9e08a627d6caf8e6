//! Decisions of the embedding coordinator: the adaptive batch size, which texts of a batch
//! the cache already answered, and how the computed embeddings fill the rest.
//!
//! Computing embeddings (on the GPU, with retries and fallbacks) and the cache itself are
//! outside this library; embeddings are carried through as values of any type. Times are
//! milliseconds.

use vstd::prelude::*;

use crate::clock::{elapsed_ms, spec_elapsed};

verus! {

/// Size of a batch, adapted to the latency of the latest batches.
#[derive(Debug)]
pub struct AdaptiveBatchConfig {
    pub current_size: usize,
    pub min_size: usize,
    pub max_size: usize,
    pub target_latency_ms: u64,
    /// Latest latencies, oldest first; at most ten are kept.
    pub recent_latencies: Vec<u64>,
    pub last_adjustment_ms: u64,
}

/// The sum of the latencies.
pub open spec fn latency_sum(s: Seq<u64>) -> int
    decreases s.len(),
{
    if s.len() == 0 { 0 } else { latency_sum(s.drop_last()) + s.last() }
}

/// The latencies kept after adding `x`: the latest ten.
pub open spec fn latencies_after(s: Seq<u64>, x: u64) -> Seq<u64> {
    if s.push(x).len() > 10 { s.push(x).drop_first() } else { s.push(x) }
}

/// The batch size after one adjustment with `latencies` (the mean compared exactly): cut by a
/// fifth (not below the minimum) when the mean exceeds the target by more than 20 %, grown by
/// a fifth (not above the maximum) when it is more than 20 % under, sizes rounded down.
pub open spec fn adjusted_size(c: AdaptiveBatchConfig, latencies: Seq<u64>) -> usize {
    let n = latencies.len() as int;
    let sum = latency_sum(latencies);
    if 10 * sum > 12 * c.target_latency_ms * n {
        if c.current_size > c.min_size {
            let cut = (c.current_size * 4 / 5) as usize;
            if cut < c.min_size { c.min_size } else { cut }
        } else {
            c.current_size
        }
    } else if 10 * sum < 8 * c.target_latency_ms * n {
        if c.current_size < c.max_size {
            let grown = c.current_size * 6 / 5;
            if grown > c.max_size { c.max_size } else { grown as usize }
        } else {
            c.current_size
        }
    } else {
        c.current_size
    }
}

impl AdaptiveBatchConfig {
    /// Batches of 32 texts, between 8 and 128, aiming at 100 ms, last adjusted at `now_ms`.
    pub fn new(now_ms: u64) -> (c: Self)
        ensures
            c.current_size == 32 && c.min_size == 8 && c.max_size == 128,
            c.target_latency_ms == 100,
            c.recent_latencies@.len() == 0,
            c.last_adjustment_ms == now_ms,
    {
        AdaptiveBatchConfig {
            current_size: 32,
            min_size: 8,
            max_size: 128,
            target_latency_ms: 100,
            recent_latencies: Vec::new(),
            last_adjustment_ms: now_ms,
        }
    }

    /// Records the latency `latency_ms` of a batch at `now_ms` and, when the last adjustment
    /// is at least 5 s old, adjusts the batch size to the mean of the latest ten latencies.
    pub fn adjust_batch_size(&mut self, latency_ms: u64, now_ms: u64)
        requires
            old(self).recent_latencies@.len() <= 10,
        ensures
            final(self).recent_latencies@ == latencies_after(old(self).recent_latencies@, latency_ms),
            final(self).recent_latencies@.len() <= 10,
            final(self).min_size == old(self).min_size,
            final(self).max_size == old(self).max_size,
            final(self).target_latency_ms == old(self).target_latency_ms,
            spec_elapsed(now_ms, old(self).last_adjustment_ms) < 5000 ==> {
                &&& final(self).current_size == old(self).current_size
                &&& final(self).last_adjustment_ms == old(self).last_adjustment_ms
            },
            spec_elapsed(now_ms, old(self).last_adjustment_ms) >= 5000 ==> {
                &&& final(self).current_size == adjusted_size(*old(self), final(self).recent_latencies@)
                &&& final(self).last_adjustment_ms == now_ms
            },
    {
        let ghost before = self.recent_latencies@;
        self.recent_latencies.push(latency_ms);
        if self.recent_latencies.len() > 10 {
            self.recent_latencies.remove(0);
        }
        proof {
            assert(self.recent_latencies@ =~= latencies_after(before, latency_ms));
        }
        if elapsed_ms(now_ms, self.last_adjustment_ms) < 5000 {
            return;
        }
        let l = &self.recent_latencies;
        let mut sum: u128 = 0;
        let mut i: usize = 0;
        while i < l.len()
            invariant
                i <= l@.len(),
                l@.len() <= 10,
                sum == latency_sum(l@.take(i as int)),
                sum <= i * 0xffff_ffff_ffff_ffff,
            decreases l@.len() - i,
        {
            proof { assert(l@.take(i + 1).drop_last() =~= l@.take(i as int)); }
            sum = sum + l[i] as u128;
            i = i + 1;
        }
        proof { assert(l@.take(l@.len() as int) =~= l@); }
        let n = l.len() as u128;
        let target = self.target_latency_ms as u128;
        proof {
            assert(12 * target * n <= 12 * 0xffff_ffff_ffff_ffff * 10) by (nonlinear_arith)
                requires target <= 0xffff_ffff_ffff_ffff, n <= 10;
            assert(8 * target * n <= 8 * 0xffff_ffff_ffff_ffff * 10) by (nonlinear_arith)
                requires target <= 0xffff_ffff_ffff_ffff, n <= 10;
        }
        if 10 * sum > 12 * target * n {
            if self.current_size > self.min_size {
                let cut = self.current_size / 5 * 4 + (self.current_size % 5) * 4 / 5;
                proof {
                    assert(cut == self.current_size * 4 / 5) by (nonlinear_arith)
                        requires cut == self.current_size / 5 * 4 + (self.current_size % 5) * 4 / 5;
                }
                self.current_size = if cut < self.min_size { self.min_size } else { cut };
            }
        } else if 10 * sum < 8 * target * n {
            if self.current_size < self.max_size {
                let grown: u128 = self.current_size as u128 * 6 / 5;
                self.current_size = if grown > self.max_size as u128 { self.max_size } else { grown as usize };
            }
        }
        self.last_adjustment_ms = now_ms;
    }
}

/// The texts used to warm the model up before its first request.
pub fn warmup_texts() -> (r: Vec<&'static str>)
    ensures
        r@.map_values(|s: &str| s@) == seq!["Hello world"@, "Test embedding"@, "Model warmup"@],
{
    let r = vec!["Hello world", "Test embedding", "Model warmup"];
    proof { assert(r@.map_values(|s: &str| s@) =~= seq!["Hello world"@, "Test embedding"@, "Model warmup"@]); }
    r
}

/// Dimension of the zero vector returned when a single embedding cannot be computed.
pub fn fallback_dimension() -> (d: usize)
    ensures
        d == 1024,
{
    1024
}

/// Dimension of the zero vectors returned when a batch cannot be computed.
pub fn batch_fallback_dimension() -> (d: usize)
    ensures
        d == 768,
{
    768
}

/// The positions the cache did not answer, in order.
pub open spec fn missing_positions<T>(slots: Seq<Option<T>>) -> Seq<int>
    decreases slots.len(),
{
    if slots.len() == 0 {
        Seq::empty()
    } else if slots.last() is None {
        missing_positions(slots.drop_last()).push(slots.len() - 1)
    } else {
        missing_positions(slots.drop_last())
    }
}

proof fn lemma_missing_positions<T>(slots: Seq<Option<T>>)
    ensures
        forall|k: int| 0 <= k < missing_positions(slots).len() ==> {
            let p = #[trigger] missing_positions(slots)[k];
            0 <= p < slots.len() && slots[p] is None
        },
        forall|a: int, b: int| 0 <= a < b < missing_positions(slots).len() ==>
            #[trigger] missing_positions(slots)[a] < #[trigger] missing_positions(slots)[b],
        forall|p: int| 0 <= p < slots.len() && slots[p] is None ==> #[trigger] missing_positions(slots).contains(p),
        missing_positions(slots).len() <= slots.len(),
    decreases slots.len(),
{
    if slots.len() > 0 {
        let rest = slots.drop_last();
        lemma_missing_positions(rest);
        assert forall|p: int| 0 <= p < slots.len() && slots[p] is None implies #[trigger] missing_positions(slots).contains(p) by {
            if p < slots.len() - 1 {
                assert(rest[p] == slots[p]);
                assert(missing_positions(rest).contains(p));
                let w = choose|w: int| 0 <= w < missing_positions(rest).len() && missing_positions(rest)[w] == p;
                assert(missing_positions(slots)[w] == p);
            } else {
                assert(missing_positions(slots).last() == p);
            }
        }
    }
}

/// Fills the positions the cache did not answer with the computed embeddings, in order; the
/// positions it answered keep their cached value. Computed values beyond the missing
/// positions are ignored.
pub fn fill_missing<T>(slots: Vec<Option<T>>, computed: Vec<T>) -> (r: Vec<T>)
    requires
        computed@.len() >= missing_positions(slots@).len(),
    ensures
        r@.len() == slots@.len(),
        forall|p: int| 0 <= p < slots@.len() && slots@[p] is Some ==> #[trigger] r@[p] == slots@[p]->0,
        forall|k: int| 0 <= k < missing_positions(slots@).len() ==> #[trigger] r@[missing_positions(slots@)[k]] == computed@[k],
{
    proof { lemma_missing_positions(slots@); }
    let ghost s0 = slots@;
    let ghost c0 = computed@;
    let n = slots.len();
    let mut rest = slots;
    let mut comp = computed;
    let mut out: Vec<T> = Vec::new();
    let mut used: usize = 0;
    let mut i: usize = 0;
    while rest.len() > 0
        invariant
            n == s0.len(),
            i <= n,
            rest@ == s0.skip(i as int),
            out@.len() == i,
            used == missing_positions(s0.take(i as int)).len(),
            comp@ == c0.skip(used as int),
            used <= c0.len(),
            c0.len() >= missing_positions(s0).len(),
            missing_positions(s0).len() <= n,
            used <= missing_positions(s0).len(),
            missing_positions(s0.take(i as int)) == missing_positions(s0).take(used as int),
            forall|p: int| 0 <= p < i && s0[p] is Some ==> #[trigger] out@[p] == s0[p]->0,
            forall|k: int| 0 <= k < used ==> #[trigger] out@[missing_positions(s0)[k]] == c0[k],
            forall|k: int| 0 <= k < used ==> #[trigger] missing_positions(s0)[k] < i,
            forall|k: int| 0 <= k < missing_positions(s0).len() ==> {
                let p = #[trigger] missing_positions(s0)[k];
                0 <= p < s0.len() && s0[p] is None
            },
            forall|a: int, b: int| 0 <= a < b < missing_positions(s0).len() ==>
                #[trigger] missing_positions(s0)[a] < #[trigger] missing_positions(s0)[b],
            forall|p: int| 0 <= p < s0.len() && s0[p] is None ==> #[trigger] missing_positions(s0).contains(p),
        decreases rest@.len(),
    {
        proof {
            assert(s0.skip(i as int)[0] == s0[i as int]);
            assert(s0.take(i + 1).drop_last() =~= s0.take(i as int));
            assert(s0.take(i + 1).last() == s0[i as int]);
        }
        let slot = rest.remove(0);
        proof { assert(rest@ =~= s0.skip(i + 1)); }
        let ghost out_before = out@;
        let ghost used_before = used;
        match slot {
            Some(v) => {
                out.push(v);
            },
            None => {
                proof {
                    lemma_missing_positions(s0.take(i as int));
                    assert(missing_positions(s0).contains(i as int));
                    let w = choose|w: int| 0 <= w < missing_positions(s0).len() && missing_positions(s0)[w] == i;
                    assert(missing_positions(s0.take(i + 1)) == missing_positions(s0.take(i as int)).push(i as int));
                    if w < used {
                        assert(missing_positions(s0)[w] < i);
                        assert(false);
                    }
                    if w > used {
                        assert(missing_positions(s0)[used as int] < missing_positions(s0)[w]);
                        let q = missing_positions(s0)[used as int];
                        assert(q < i);
                        assert(s0[q] is None);
                        assert(s0.take(i as int)[q] == s0[q]);
                        assert(missing_positions(s0.take(i as int)).contains(q));
                        let j = choose|j: int| 0 <= j < missing_positions(s0.take(i as int)).len() && missing_positions(s0.take(i as int))[j] == q;
                        assert(missing_positions(s0)[j] == q);
                        assert(missing_positions(s0)[j] < missing_positions(s0)[used as int]);
                        assert(false);
                    }
                    assert(used < missing_positions(s0).len());
                    assert(c0.skip(used as int)[0] == c0[used as int]);
                    assert(missing_positions(s0.take(i + 1)) =~= missing_positions(s0).take(used + 1));
                }
                let v = comp.remove(0);
                proof { assert(comp@ =~= c0.skip(used + 1)); }
                out.push(v);
                used = used + 1;
            },
        }
        proof {
            assert(out@ =~= out_before.push(out@.last()));
            assert forall|k: int| 0 <= k < used implies #[trigger] out@[missing_positions(s0)[k]] == c0[k] by {
                if k < used_before {
                    assert(missing_positions(s0)[k] < i);
                    assert(0 <= missing_positions(s0)[k]);
                    assert(out@[missing_positions(s0)[k]] == out_before[missing_positions(s0)[k]]);
                }
            }
        }
        i = i + 1;
    }
    proof { assert(s0.take(n as int) =~= s0); }
    out
}


/// The total of a window of latencies, added from the oldest.
pub open spec fn window_total(s: Seq<u64>) -> int
    decreases s.len(),
{
    if s.len() == 0 { 0 } else { s[0] + window_total(s.drop_first()) }
}

proof fn lemma_sum_from_front(s: Seq<u64>)
    requires
        s.len() > 0,
    ensures
        latency_sum(s) == s[0] + latency_sum(s.drop_first()),
    decreases s.len(),
{
    if s.len() == 1 {
        assert(s.drop_last().len() == 0);
        assert(s.drop_first().len() == 0);
        assert(latency_sum(s.drop_first()) == 0);
        assert(latency_sum(s.drop_last()) == 0);
    } else {
        let dl = s.drop_last();
        lemma_sum_from_front(dl);
        assert(dl.drop_first() =~= s.drop_first().drop_last());
        assert(s.drop_first().last() == s.last());
        assert(dl[0] == s[0]);
    }
}

proof fn lemma_window_total(s: Seq<u64>)
    ensures
        window_total(s) == latency_sum(s),
    decreases s.len(),
{
    if s.len() > 0 {
        lemma_window_total(s.drop_first());
        lemma_sum_from_front(s);
    }
}

/// The batch size follows the mean of all kept latencies: when it exceeds the target by more
/// than 20 % the batch shrinks (not below the minimum); when it is more than 20 % under, the
/// batch grows (not above the maximum, and strictly from 5 texts up); otherwise it stays.
pub proof fn lemma_batch_follows_mean_latency(c: AdaptiveBatchConfig, window: Seq<u64>)
    requires
        window.len() > 0,
        c.min_size <= c.current_size <= c.max_size,
    ensures
        ({
            let n = window.len() as int;
            let total = window_total(window);
            let r = adjusted_size(c, window);
            &&& (10 * total > 12 * c.target_latency_ms * n && c.current_size > c.min_size) ==> c.min_size <= r < c.current_size
            &&& 10 * total < 8 * c.target_latency_ms * n ==> c.current_size <= r <= c.max_size
            &&& (10 * total < 8 * c.target_latency_ms * n && c.current_size < c.max_size && c.current_size >= 5) ==> r > c.current_size
            &&& (8 * c.target_latency_ms * n <= 10 * total && 10 * total <= 12 * c.target_latency_ms * n) ==> r == c.current_size
        }),
{
    lemma_window_total(window);
    let cur = c.current_size as int;
    let n = window.len() as int;
    let t = c.target_latency_ms as int;
    assert(8 * t * n <= 12 * t * n) by (nonlinear_arith)
        requires t >= 0, n >= 0;
    if cur >= 1 {
        assert(cur * 4 / 5 < cur) by (nonlinear_arith)
            requires cur >= 1;
    }
    assert(cur * 6 / 5 >= cur) by (nonlinear_arith)
        requires cur >= 0;
    assert(cur >= 5 ==> cur * 6 / 5 > cur) by (nonlinear_arith);
}

} // verus!
