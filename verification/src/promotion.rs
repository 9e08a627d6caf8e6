//! Promotion of records between the memory layers: the time cut-offs that make a record a
//! candidate for promotion or expiry, the choice of candidates, the ordered keys of the
//! time and score indices, and the statistics of a promotion cycle.

use vstd::prelude::*;
use crate::orchestration::search_coordinator::Layer;
use vstd::string::StringExecFns;

use crate::text::{decimal, push_decimal};

verus! {

/// Seconds in an hour and in a day.
pub const SECS_PER_HOUR: i64 = 3600;
pub const SECS_PER_DAY: i64 = 86400;

/// Width of an index key: enough digits for every `u64`.
pub const INDEX_KEY_WIDTH: u64 = 20;

/// What one promotion cycle did.
#[derive(Debug)]
pub struct PromotionStats {
    pub interact_to_insights: usize,
    pub insights_to_assets: usize,
    pub expired_interact: usize,
    pub expired_insights: usize,
    pub total_time_ms: u64,
    pub index_update_time_ms: u64,
    pub promotion_time_ms: u64,
    pub cleanup_time_ms: u64,
}

impl Default for PromotionStats {
    /// Nothing promoted, nothing expired, no time spent.
    fn default() -> (s: Self)
        ensures
            s == (PromotionStats {
                interact_to_insights: 0,
                insights_to_assets: 0,
                expired_interact: 0,
                expired_insights: 0,
                total_time_ms: 0,
                index_update_time_ms: 0,
                promotion_time_ms: 0,
                cleanup_time_ms: 0,
            }),
    {
        PromotionStats {
            interact_to_insights: 0,
            insights_to_assets: 0,
            expired_interact: 0,
            expired_insights: 0,
            total_time_ms: 0,
            index_update_time_ms: 0,
            promotion_time_ms: 0,
            cleanup_time_ms: 0,
        }
    }
}

/// Sizes of the time and score indices of each layer.
#[derive(Debug)]
pub struct PromotionPerformanceStats {
    pub interact_time_index_size: usize,
    pub interact_score_index_size: usize,
    pub insights_time_index_size: usize,
    pub insights_score_index_size: usize,
    pub assets_time_index_size: usize,
    pub assets_score_index_size: usize,
}

impl Default for PromotionPerformanceStats {
    /// All indices empty.
    fn default() -> (s: Self)
        ensures
            s == (PromotionPerformanceStats {
                interact_time_index_size: 0,
                interact_score_index_size: 0,
                insights_time_index_size: 0,
                insights_score_index_size: 0,
                assets_time_index_size: 0,
                assets_score_index_size: 0,
            }),
    {
        PromotionPerformanceStats {
            interact_time_index_size: 0,
            interact_score_index_size: 0,
            insights_time_index_size: 0,
            insights_score_index_size: 0,
            assets_time_index_size: 0,
            assets_score_index_size: 0,
        }
    }
}

impl PromotionPerformanceStats {
    /// Records the sizes of the two indices of `layer`, leaving the other layers' sizes.
    pub fn record_layer(&mut self, layer: Layer, time_index_size: usize, score_index_size: usize)
        ensures
            final(self).interact_time_index_size == (if layer == Layer::Interact { time_index_size } else { old(self).interact_time_index_size }),
            final(self).interact_score_index_size == (if layer == Layer::Interact { score_index_size } else { old(self).interact_score_index_size }),
            final(self).insights_time_index_size == (if layer == Layer::Insights { time_index_size } else { old(self).insights_time_index_size }),
            final(self).insights_score_index_size == (if layer == Layer::Insights { score_index_size } else { old(self).insights_score_index_size }),
            final(self).assets_time_index_size == (if layer == Layer::Assets { time_index_size } else { old(self).assets_time_index_size }),
            final(self).assets_score_index_size == (if layer == Layer::Assets { score_index_size } else { old(self).assets_score_index_size }),
    {
        match layer {
            Layer::Interact => {
                self.interact_time_index_size = time_index_size;
                self.interact_score_index_size = score_index_size;
            },
            Layer::Insights => {
                self.insights_time_index_size = time_index_size;
                self.insights_score_index_size = score_index_size;
            },
            Layer::Assets => {
                self.assets_time_index_size = time_index_size;
                self.assets_score_index_size = score_index_size;
            },
        }
    }
}

/// The layer a record of `from` is promoted to: Interact to Insights, Insights to Assets;
/// Assets is the last layer.
pub open spec fn spec_promotion_target(from: Layer) -> Option<Layer> {
    match from {
        Layer::Interact => Some(Layer::Insights),
        Layer::Insights => Some(Layer::Assets),
        Layer::Assets => None,
    }
}

/// The layer a record of `from` is promoted to, if any.
pub fn promotion_target(from: Layer) -> (r: Option<Layer>)
    ensures
        r == spec_promotion_target(from),
{
    match from {
        Layer::Interact => Some(Layer::Insights),
        Layer::Insights => Some(Layer::Assets),
        Layer::Assets => None,
    }
}

/// How often a record of `from` must have been accessed to be promoted: twice from
/// Interact, five times from Insights; Assets are never promoted.
pub fn min_access_count(from: Layer) -> (n: Option<u32>)
    ensures
        n == (match from {
            Layer::Interact => Some(2u32),
            Layer::Insights => Some(5u32),
            Layer::Assets => None::<u32>,
        }),
{
    match from {
        Layer::Interact => Some(2),
        Layer::Insights => Some(5),
        Layer::Assets => None,
    }
}

/// The bounds under which the time arithmetic of the cut-offs stays in range.
pub open spec fn cutoff_in_range(now_secs: i64, interact_ttl_hours: u64, insights_ttl_days: u64) -> bool {
    &&& interact_ttl_hours * 2 * 3600 <= now_secs - i64::MIN
    &&& insights_ttl_days * 86400 <= now_secs - i64::MIN
}

/// Records of `from` created before this instant (seconds) are candidates for promotion:
/// `interact_ttl_hours` back for Interact, `insights_ttl_days` back for Insights. Assets are
/// never promoted.
pub fn promotion_cutoff_secs(from: Layer, now_secs: i64, interact_ttl_hours: u64, insights_ttl_days: u64) -> (r: Option<i64>)
    requires
        cutoff_in_range(now_secs, interact_ttl_hours, insights_ttl_days),
    ensures
        r == (match from {
            Layer::Interact => Some((now_secs - interact_ttl_hours * 3600) as i64),
            Layer::Insights => Some((now_secs - insights_ttl_days * 86400) as i64),
            Layer::Assets => None::<i64>,
        }),
{
    match from {
        Layer::Interact => {
            assert((interact_ttl_hours as i128) * 3600 <= 0x1_0000_0000_0000_0000 * 3600) by (nonlinear_arith)
                requires interact_ttl_hours <= u64::MAX;
            let back: i128 = (interact_ttl_hours as i128) * (SECS_PER_HOUR as i128);
            Some(((now_secs as i128) - back) as i64)
        },
        Layer::Insights => {
            let back: i128 = (insights_ttl_days as i128) * (SECS_PER_DAY as i128);
            Some(((now_secs as i128) - back) as i64)
        },
        Layer::Assets => None,
    }
}

/// Records of `layer` created before this instant (seconds) have expired: twice the
/// Interact time to live for Interact, the Insights time to live for Insights. Assets never
/// expire.
pub fn expiry_cutoff_secs(layer: Layer, now_secs: i64, interact_ttl_hours: u64, insights_ttl_days: u64) -> (r: Option<i64>)
    requires
        cutoff_in_range(now_secs, interact_ttl_hours, insights_ttl_days),
    ensures
        r == (match layer {
            Layer::Interact => Some((now_secs - interact_ttl_hours * 2 * 3600) as i64),
            Layer::Insights => Some((now_secs - insights_ttl_days * 86400) as i64),
            Layer::Assets => None::<i64>,
        }),
{
    match layer {
        Layer::Interact => {
            let back: i128 = (interact_ttl_hours as i128) * 2 * (SECS_PER_HOUR as i128);
            Some(((now_secs as i128) - back) as i64)
        },
        Layer::Insights => {
            let back: i128 = (insights_ttl_days as i128) * (SECS_PER_DAY as i128);
            Some(((now_secs as i128) - back) as i64)
        },
        Layer::Assets => None,
    }
}

/// Whether an entry of a time index is a promotion candidate: its record was found and
/// scores at least the threshold (`entry.0`), and it was accessed at least `min_access`
/// times (`entry.1`).
pub open spec fn is_candidate(entry: (bool, u32), min_access: u32) -> bool {
    entry.0 && entry.1 >= min_access
}

/// The positions, in index order, of every candidate among the entries.
pub open spec fn candidate_positions(entries: Seq<(bool, u32)>, min_access: u32) -> Seq<int>
    decreases entries.len(),
{
    if entries.len() == 0 {
        Seq::empty()
    } else {
        let before = candidate_positions(entries.drop_last(), min_access);
        if is_candidate(entries.last(), min_access) { before.push(entries.len() - 1) } else { before }
    }
}

/// Walks the entries of a time index in key order (the records created before the cut-off)
/// and keeps every candidate: `entries[i]` says whether the record of entry `i` was found and
/// scores at least the threshold, and how often it was accessed. Returns the positions of
/// the candidates, in order.
pub fn select_candidates(entries: &Vec<(bool, u32)>, min_access: u32) -> (r: Vec<usize>)
    ensures
        r@.len() == candidate_positions(entries@, min_access).len(),
        forall|k: int| 0 <= k < r@.len() ==> r@[k] as int == #[trigger] candidate_positions(entries@, min_access)[k],
{
    let mut r: Vec<usize> = Vec::new();
    let mut i: usize = 0;
    while i < entries.len()
        invariant
            i <= entries@.len(),
            r@.len() == candidate_positions(entries@.take(i as int), min_access).len(),
            forall|k: int| 0 <= k < r@.len() ==> r@[k] as int == #[trigger] candidate_positions(entries@.take(i as int), min_access)[k],
        decreases entries@.len() - i,
    {
        assert(entries@.take(i + 1).drop_last() =~= entries@.take(i as int));
        assert(entries@.take(i + 1).last() == entries@[i as int]);
        let (found, accesses) = entries[i];
        if found && accesses >= min_access {
            r.push(i);
        }
        i = i + 1;
    }
    assert(entries@.take(i as int) =~= entries@);
    r
}

/// A position is selected exactly when its entry is a candidate.
pub proof fn lemma_candidates_are_exactly_the_qualifying(entries: Seq<(bool, u32)>, min_access: u32, i: int)
    requires
        0 <= i < entries.len(),
    ensures
        candidate_positions(entries, min_access).contains(i) <==> is_candidate(entries[i], min_access),
    decreases entries.len(),
{
    let rest = entries.drop_last();
    lemma_positions_below(rest, min_access);
    if i < entries.len() - 1 {
        lemma_candidates_are_exactly_the_qualifying(rest, min_access, i);
        assert(rest[i] == entries[i]);
        let before = candidate_positions(rest, min_access);
        if is_candidate(entries.last(), min_access) {
            assert(before.push(entries.len() - 1).contains(i) <==> before.contains(i)) by {
                if before.push(entries.len() - 1).contains(i) {
                    let k = choose|k: int| 0 <= k < before.len() + 1 && #[trigger] before.push(entries.len() - 1)[k] == i;
                    if k == before.len() {
                        assert(false);
                    } else {
                        assert(before[k] == i);
                    }
                }
                if before.contains(i) {
                    let k = choose|k: int| 0 <= k < before.len() && #[trigger] before[k] == i;
                    assert(before.push(entries.len() - 1)[k] == i);
                }
            }
        }
    } else {
        let before = candidate_positions(rest, min_access);
        if is_candidate(entries.last(), min_access) {
            assert(before.push(i)[before.len() as int] == i);
        } else {
            if before.contains(i) {
                let k = choose|k: int| 0 <= k < before.len() && #[trigger] before[k] == i;
                assert(before[k] < rest.len());
            }
        }
    }
}

proof fn lemma_positions_below(entries: Seq<(bool, u32)>, min_access: u32)
    ensures
        forall|k: int| 0 <= k < candidate_positions(entries, min_access).len() ==>
            0 <= #[trigger] candidate_positions(entries, min_access)[k] < entries.len(),
    decreases entries.len(),
{
    if entries.len() > 0 {
        let rest = entries.drop_last();
        lemma_positions_below(rest, min_access);
        let before = candidate_positions(rest, min_access);
        assert forall|k: int| 0 <= k < before.push(entries.len() - 1).len() implies
            0 <= #[trigger] before.push(entries.len() - 1)[k] < entries.len() by {
            if k < before.len() {
                assert(before.push(entries.len() - 1)[k] == before[k]);
            }
        }
    }
}

/// `10` to the power `w`.
pub open spec fn pow10(w: nat) -> nat
    decreases w,
{
    if w == 0 { 1 } else { 10 * pow10((w - 1) as nat) }
}

/// The `w` lowest decimal digits of `n`, most significant first, padded with zeros.
pub open spec fn padded_digits(n: nat, w: nat) -> Seq<char>
    decreases w,
{
    if w == 0 {
        Seq::empty()
    } else {
        padded_digits(n / 10, (w - 1) as nat).push(crate::text::digit_char(n % 10))
    }
}

/// `a` comes before `b` in byte-wise (here: character-wise) order, both of one length.
pub open spec fn key_before(a: Seq<char>, b: Seq<char>) -> bool {
    &&& a.len() == b.len()
    &&& exists|i: int| 0 <= i < a.len() && #[trigger] a.take(i) == b.take(i) && (a[i] as u32) < (b[i] as u32)
}

proof fn lemma_padded_len(n: nat, w: nat)
    ensures
        padded_digits(n, w).len() == w,
    decreases w,
{
    if w > 0 {
        lemma_padded_len(n / 10, (w - 1) as nat);
    }
}

proof fn lemma_digit_char_order(d: nat, e: nat)
    requires
        d < e < 10,
    ensures
        (crate::text::digit_char(d) as u32) < (crate::text::digit_char(e) as u32),
{
    assert((48 + d) as u8 == 48 + d);
    assert((48 + e) as u8 == 48 + e);
}

/// Zero-padded digit strings keep the order of the values below `10^w`.
proof fn lemma_padded_order(n: nat, m: nat, w: nat)
    requires
        n < m < pow10(w),
    ensures
        key_before(padded_digits(n, w), padded_digits(m, w)),
    decreases w,
{
    lemma_padded_len(n, w);
    lemma_padded_len(m, w);
    if w == 0 {
        assert(false);
    } else {
        let w1 = (w - 1) as nat;
        let pn = padded_digits(n / 10, w1);
        let pm = padded_digits(m / 10, w1);
        lemma_padded_len(n / 10, w1);
        lemma_padded_len(m / 10, w1);
        assert(m / 10 < pow10(w1));
        let a = padded_digits(n, w);
        let b = padded_digits(m, w);
        if n / 10 < m / 10 {
            lemma_padded_order(n / 10, m / 10, w1);
            let i = choose|i: int| 0 <= i < pn.len() && #[trigger] pn.take(i) == pm.take(i) && (pn[i] as u32) < (pm[i] as u32);
            assert(a.take(i) =~= pn.take(i));
            assert(b.take(i) =~= pm.take(i));
            assert(a[i] == pn[i]);
            assert(b[i] == pm[i]);
        } else {
            assert(n / 10 == m / 10);
            assert(n % 10 < m % 10);
            lemma_digit_char_order(n % 10, m % 10);
            let i = w1 as int;
            assert(a.take(i) =~= pn);
            assert(b.take(i) =~= pm);
        }
    }
}

/// Index keys keep the order of the values they stand for: a range scan over the keys below
/// the key of `b` visits exactly the values below `b`.
pub proof fn lemma_index_key_order(a: u64, b: u64)
    requires
        a < b,
    ensures
        key_before(padded_digits(a as nat, 20), padded_digits(b as nat, 20)),
{
    assert(pow10(20) == 100000000000000000000nat) by {
        reveal_with_fuel(pow10, 21);
    }
    lemma_padded_order(a as nat, b as nat, 20);
}

/// Appends the `w` lowest decimal digits of `n` to `s`, most significant first.
fn push_padded(s: &mut String, n: u64, w: u64)
    ensures
        final(s)@ == old(s)@ + padded_digits(n as nat, w as nat),
    decreases w,
{
    if w > 0 {
        push_padded(s, n / 10, w - 1);
        let d = n % 10;
        assert(decimal(d as nat) == seq![crate::text::digit_char(d as nat)]);
        push_decimal(s, d);
        assert(padded_digits(n as nat, w as nat) == padded_digits((n / 10) as nat, (w - 1) as nat).push(crate::text::digit_char((n % 10) as nat)));
        assert(s@ =~= old(s)@ + padded_digits(n as nat, w as nat)) by {
            assert(old(s)@ + padded_digits((n / 10) as nat, (w - 1) as nat) + seq![crate::text::digit_char(d as nat)] =~= old(s)@ + padded_digits(n as nat, w as nat));
        };
    }
}

/// The key under which a value (a timestamp, or a scaled score) is stored in an ordered
/// index: its decimal digits, zero-padded to twenty characters.
pub fn index_key(value: u64) -> (k: String)
    ensures
        k@ == padded_digits(value as nat, 20),
        k@.len() == 20,
{
    let mut k = String::new();
    push_padded(&mut k, value, INDEX_KEY_WIDTH);
    assert(k@ =~= padded_digits(value as nat, 20));
    proof {
        lemma_padded_len(value as nat, 20);
    }
    k
}

/// Whether a layer's indices must be rebuilt when the engine starts: when either of them is
/// empty.
pub fn indices_need_rebuild(time_index_empty: bool, score_index_empty: bool) -> (r: bool)
    ensures
        r == (time_index_empty || score_index_empty),
{
    time_index_empty || score_index_empty
}

/// Whether a layer's time index has drifted from its records so far that it is rebuilt before
/// a promotion cycle: the layer holds records and the index has fewer than half as many
/// entries (half rounded down).
pub fn index_diverged(records: usize, index_entries: usize) -> (r: bool)
    ensures
        r == (records > 0 && index_entries < records / 2),
{
    records > 0 && index_entries < records / 2
}

/// The slowest promotion cycle (milliseconds) the promotion coordinator counts as healthy.
pub const PROMOTION_SLOW_MS: u64 = 10000;

/// The promotion coordinator's health check: it must be ready, and the last promotion cycle
/// must have taken at most ten seconds.
pub fn promotion_health_check(ready: bool, stats: &PromotionStats) -> (r: Result<(), String>)
    ensures
        !ready ==> (r matches Err(m) && m@ == "PromotionCoordinator не готов"@),
        ready && stats.total_time_ms > PROMOTION_SLOW_MS ==> (r matches Err(m)
            && m@ == "Promotion занимает слишком много времени: "@ + decimal(stats.total_time_ms as nat) + "ms"@),
        ready && stats.total_time_ms <= PROMOTION_SLOW_MS ==> r is Ok,
{
    if !ready {
        return Err(String::from_str("PromotionCoordinator не готов"));
    }
    if stats.total_time_ms > PROMOTION_SLOW_MS {
        let mut m = String::from_str("Promotion занимает слишком много времени: ");
        push_decimal(&mut m, stats.total_time_ms);
        m.append("ms");
        return Err(m);
    }
    Ok(())
}

} // verus!
