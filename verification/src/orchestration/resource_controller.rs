//! The resource controller: auto-scaling of the memory store's limits, a history of usage
//! snapshots, load trends and resource alerts.
//!
//! The periodic loops that drive it run outside this library; each tick calls one step here
//! with the current time in milliseconds. Usage shares are compared exactly, as fractions;
//! the figures kept for display are in hundredths of a percent.

use vstd::prelude::*;
use vstd::string::StringExecFns;

use crate::clock::{elapsed_ms, spec_elapsed};
use crate::counters::{bump, bump_exec};
use crate::resource_manager::{clamp, share, CurrentLimits, ResourceManager, ResourceUsage};
use crate::text::{decimal, push_decimal, push_decimal_wide};

verus! {

/// Thresholds (whole percents) and cooldowns of auto-scaling.
#[derive(Debug, Clone, Copy, PartialEq, Eq, Structural)]
pub struct ScalingConfig {
    pub memory_scale_up_threshold: u64,
    pub memory_scale_down_threshold: u64,
    pub vector_scale_up_threshold: u64,
    pub vector_scale_down_threshold: u64,
    pub scale_up_cooldown_ms: u64,
    pub scale_down_cooldown_ms: u64,
    pub aggressive_scaling: bool,
    pub predictive_scaling: bool,
}

impl ScalingConfig {
    /// Scale memory up above 80 % and down under 40 %, vectors up above 85 % and down under
    /// 30 %, with cooldowns of 5 and 15 minutes, not aggressive, predictive.
    pub fn standard() -> (c: Self)
        ensures
            c == (ScalingConfig {
                memory_scale_up_threshold: 80,
                memory_scale_down_threshold: 40,
                vector_scale_up_threshold: 85,
                vector_scale_down_threshold: 30,
                scale_up_cooldown_ms: 300_000,
                scale_down_cooldown_ms: 900_000,
                aggressive_scaling: false,
                predictive_scaling: true,
            }),
    {
        ScalingConfig {
            memory_scale_up_threshold: 80,
            memory_scale_down_threshold: 40,
            vector_scale_up_threshold: 85,
            vector_scale_down_threshold: 30,
            scale_up_cooldown_ms: 300_000,
            scale_down_cooldown_ms: 900_000,
            aggressive_scaling: false,
            predictive_scaling: true,
        }
    }

    /// For heavy load: memory up above 75 % and down under 35 %, vectors up above 80 % and
    /// down under 25 %, cooldowns of 3 and 10 minutes, aggressive, predictive.
    pub fn production() -> (c: Self)
        ensures
            c == (ScalingConfig {
                memory_scale_up_threshold: 75,
                memory_scale_down_threshold: 35,
                vector_scale_up_threshold: 80,
                vector_scale_down_threshold: 25,
                scale_up_cooldown_ms: 180_000,
                scale_down_cooldown_ms: 600_000,
                aggressive_scaling: true,
                predictive_scaling: true,
            }),
    {
        ScalingConfig {
            memory_scale_up_threshold: 75,
            memory_scale_down_threshold: 35,
            vector_scale_up_threshold: 80,
            vector_scale_down_threshold: 25,
            scale_up_cooldown_ms: 180_000,
            scale_down_cooldown_ms: 600_000,
            aggressive_scaling: true,
            predictive_scaling: true,
        }
    }
}

/// Figures of resource use over time. Shares are in hundredths of a percent.
#[derive(Debug, Clone, Copy, PartialEq, Eq, Structural)]
pub struct ResourceMetrics {
    pub peak_memory_usage: u64,
    /// Moving average of the memory share: each snapshot weighs one tenth (rounded down).
    pub avg_memory_usage: u64,
    pub peak_vector_count: u64,
    /// Moving average of the vector count: each snapshot weighs one tenth (rounded down).
    pub avg_vector_count: u64,
    pub cache_hit_rate: u64,
    pub gc_frequency: u64,
    pub scaling_events: u64,
    pub last_scaling_event_ms: Option<u64>,
}

/// Resource use at one moment. Shares are in hundredths of a percent.
#[derive(Debug, Clone, Copy, PartialEq, Eq, Structural)]
pub struct ResourceSnapshot {
    pub timestamp_ms: u64,
    pub memory_usage: u64,
    pub vector_usage: u64,
    pub cache_usage: u64,
    pub operations_per_second: u64,
}

/// A linear trend: the slope of the least-squares line through the values, as the
/// fraction `numerator / denominator` (value units per sample).
#[derive(Debug, Clone, Copy, PartialEq, Eq, Structural)]
pub struct Trend {
    pub numerator: i128,
    pub denominator: i128,
}

/// Trends of resource use.
#[derive(Debug, Clone, Copy, PartialEq, Eq, Structural)]
pub struct LoadPredictor {
    pub trend_memory: Trend,
    pub trend_vectors: Trend,
    pub seasonal_factor: u64,
    /// Confidence in tenths.
    pub prediction_confidence: u64,
}

/// Kinds of resource alerts.
#[derive(Debug, Clone, Copy, PartialEq, Eq, Structural)]
pub enum ResourceAlertType {
    MemoryPressure,
    VectorLimitApproached,
    CacheOverflow,
    ScalingEvent,
    ResourceExhaustion,
}

/// The name of an alert type, as printed.
pub open spec fn alert_type_name(t: ResourceAlertType) -> Seq<char> {
    match t {
        ResourceAlertType::MemoryPressure => "MemoryPressure"@,
        ResourceAlertType::VectorLimitApproached => "VectorLimitApproached"@,
        ResourceAlertType::CacheOverflow => "CacheOverflow"@,
        ResourceAlertType::ScalingEvent => "ScalingEvent"@,
        ResourceAlertType::ResourceExhaustion => "ResourceExhaustion"@,
    }
}

impl ResourceAlertType {
    /// The name of the type.
    pub fn name(&self) -> (s: &'static str)
        ensures
            s@ == alert_type_name(*self),
    {
        proof {
            reveal_strlit("MemoryPressure");
            reveal_strlit("VectorLimitApproached");
            reveal_strlit("CacheOverflow");
            reveal_strlit("ScalingEvent");
            reveal_strlit("ResourceExhaustion");
        }
        match self {
            ResourceAlertType::MemoryPressure => "MemoryPressure",
            ResourceAlertType::VectorLimitApproached => "VectorLimitApproached",
            ResourceAlertType::CacheOverflow => "CacheOverflow",
            ResourceAlertType::ScalingEvent => "ScalingEvent",
            ResourceAlertType::ResourceExhaustion => "ResourceExhaustion",
        }
    }
}

/// A resource alert.
#[derive(Debug)]
pub struct ResourceAlert {
    pub id: String,
    pub alert_type: ResourceAlertType,
    pub message: String,
    pub timestamp_ms: u64,
    pub resolved: bool,
}

/// How an elapsed time of `secs` seconds is shown: seconds under a minute, whole minutes
/// under an hour, whole hours beyond.
pub open spec fn elapsed_text(secs: nat) -> Seq<char> {
    if secs < 60 {
        decimal(secs) + "s"@
    } else if secs < 3600 {
        decimal(secs / 60) + "m"@
    } else {
        decimal(secs / 3600) + "h"@
    }
}

/// Shows an elapsed time of `secs` seconds.
pub fn format_elapsed(secs: u64) -> (s: String)
    ensures
        s@ == elapsed_text(secs as nat),
{
    proof {
        reveal_strlit("s");
        reveal_strlit("m");
        reveal_strlit("h");
    }
    let mut s = String::new();
    if secs < 60 {
        push_decimal(&mut s, secs);
        s.append("s");
    } else if secs < 3600 {
        push_decimal(&mut s, secs / 60);
        s.append("m");
    } else {
        push_decimal(&mut s, secs / 3600);
        s.append("h");
    }
    proof {
        assert(s@ =~= elapsed_text(secs as nat));
    }
    s
}

/// Whether `part` is more than `p` percent of `whole`, exactly (a zero `whole` counts as
/// exceeded when `part` is not zero).
pub open spec fn over(part: u64, whole: u64, p: u64) -> bool {
    part * 100 > p * whole
}

/// Whether `part` is less than `p` percent of `whole`, exactly (never when `whole` is zero).
pub open spec fn under(part: u64, whole: u64, p: u64) -> bool {
    part * 100 < p * whole
}

fn over_exec(part: u64, whole: u64, p: u64) -> (r: bool)
    ensures
        r == over(part, whole, p),
{
    proof {
        assert(p * whole <= u64::MAX * u64::MAX) by (nonlinear_arith)
            requires p <= u64::MAX, whole <= u64::MAX;
    }
    part as u128 * 100 > p as u128 * whole as u128
}

fn under_exec(part: u64, whole: u64, p: u64) -> (r: bool)
    ensures
        r == under(part, whole, p),
{
    proof {
        assert(p * whole <= u64::MAX * u64::MAX) by (nonlinear_arith)
            requires p <= u64::MAX, whole <= u64::MAX;
    }
    (part as u128) * 100 < (p as u128) * (whole as u128)
}

/// The share `part / whole` in percent with one decimal, rounded half up, as text; `inf`
/// for a zero `whole` with a nonzero `part` and `NaN` for both zero.
pub open spec fn percent_text(part: u64, whole: u64) -> Seq<char> {
    if whole == 0 {
        if part == 0 { "NaN"@ } else { "inf"@ }
    } else {
        let t = (part * 2000 / (whole as int) + 1) / 2;
        decimal((t / 10) as nat) + "."@ + decimal((t % 10) as nat)
    }
}

/// Appends the share `part / whole` in percent with one decimal.
pub fn push_percent(s: &mut String, part: u64, whole: u64)
    ensures
        final(s)@ == old(s)@ + percent_text(part, whole),
{
    proof {
        reveal_strlit("NaN");
        reveal_strlit("inf");
        reveal_strlit(".");
    }
    if whole == 0 {
        if part == 0 { s.append("NaN"); } else { s.append("inf"); }
    } else {
        let t: u128 = (part as u128 * 2000 / whole as u128 + 1) / 2;
        proof {
            assert(part * 2000 / (whole as int) <= part * 2000) by (nonlinear_arith)
                requires whole >= 1, part >= 0;
        }
        push_decimal_wide(s, t / 10);
        s.append(".");
        push_decimal_wide(s, t % 10);
    }
    proof {
        assert(s@ =~= old(s)@ + percent_text(part, whole));
    }
}

/// The alerts one monitoring tick raises for `usage`, with their messages: critical memory
/// use above 90 % of the cache (high above 85 %), and the vector limit approached above 90 %.
pub open spec fn spec_monitoring_alerts(u: ResourceUsage) -> Seq<(ResourceAlertType, Seq<char>)> {
    (if over(u.current_cache_size, u.max_cache_size, 90) {
        seq![(ResourceAlertType::MemoryPressure, "Критическое использование памяти: "@ + percent_text(u.current_cache_size, u.max_cache_size) + "%"@)]
    } else if over(u.current_cache_size, u.max_cache_size, 85) {
        seq![(ResourceAlertType::MemoryPressure, "Высокое использование памяти: "@ + percent_text(u.current_cache_size, u.max_cache_size) + "%"@)]
    } else {
        Seq::empty()
    }) + (if over(u.current_vectors, u.max_vectors, 90) {
        seq![(ResourceAlertType::VectorLimitApproached, "Приближение к лимиту векторов: "@ + decimal(u.current_vectors as nat) + "/"@
            + decimal(u.max_vectors as nat) + " ("@ + percent_text(u.current_vectors, u.max_vectors) + "%)"@)]
    } else {
        Seq::empty()
    })
}

/// The alerts one monitoring tick raises for `usage`.
pub fn monitoring_alerts(usage: &ResourceUsage) -> (r: Vec<(ResourceAlertType, String)>)
    ensures
        r@.map_values(|a: (ResourceAlertType, String)| (a.0, a.1@)) == spec_monitoring_alerts(*usage),
{
    proof {
        reveal_strlit("%");
        reveal_strlit("/");
        reveal_strlit(" (");
        reveal_strlit("%)");
    }
    let mut out: Vec<(ResourceAlertType, String)> = Vec::new();
    if over_exec(usage.current_cache_size, usage.max_cache_size, 90) {
        let mut m = String::new();
        m.append("Критическое использование памяти: ");
        push_percent(&mut m, usage.current_cache_size, usage.max_cache_size);
        m.append("%");
        out.push((ResourceAlertType::MemoryPressure, m));
    } else if over_exec(usage.current_cache_size, usage.max_cache_size, 85) {
        let mut m = String::new();
        m.append("Высокое использование памяти: ");
        push_percent(&mut m, usage.current_cache_size, usage.max_cache_size);
        m.append("%");
        out.push((ResourceAlertType::MemoryPressure, m));
    }
    let ghost first = out@;
    if over_exec(usage.current_vectors, usage.max_vectors, 90) {
        let mut m = String::new();
        m.append("Приближение к лимиту векторов: ");
        push_decimal(&mut m, usage.current_vectors);
        m.append("/");
        push_decimal(&mut m, usage.max_vectors);
        m.append(" (");
        push_percent(&mut m, usage.current_vectors, usage.max_vectors);
        m.append("%)");
        out.push((ResourceAlertType::VectorLimitApproached, m));
    }
    proof {
        assert(out@.map_values(|a: (ResourceAlertType, String)| (a.0, a.1@)) =~= spec_monitoring_alerts(*usage));
    }
    out
}

/// `x` scaled by the factor `f` in thousandths, rounded down and capped at `u64::MAX`.
pub open spec fn scale(x: u64, f: u64) -> u64 {
    if x * f / 1000 > u64::MAX { u64::MAX } else { (x * f / 1000) as u64 }
}

fn scale_exec(x: u64, f: u64) -> (r: u64)
    ensures
        r == scale(x, f),
{
    proof {
        assert(x * f <= u64::MAX * u64::MAX) by (nonlinear_arith)
            requires x <= u64::MAX, f <= u64::MAX;
    }
    let v: u128 = x as u128 * f as u128 / 1000;
    if v > u64::MAX as u128 { u64::MAX } else { v as u64 }
}

/// The limits one auto-scaling step asks for, if any: the cache grows by 50 % (20 % when not
/// aggressive) above the memory threshold and shrinks by 20 % (10 %) under the lower one; the
/// vector limit grows by 40 % (30 %) above its threshold and shrinks by 30 % (15 %) under the
/// lower one.
pub open spec fn spec_autoscale(c: ScalingConfig, u: ResourceUsage, l: CurrentLimits) -> Option<CurrentLimits> {
    let cache_up = over(u.current_cache_size, u.max_cache_size, c.memory_scale_up_threshold);
    let cache_down = !cache_up && under(u.current_cache_size, u.max_cache_size, c.memory_scale_down_threshold);
    let vec_up = over(u.current_vectors, u.max_vectors, c.vector_scale_up_threshold);
    let vec_down = !vec_up && under(u.current_vectors, u.max_vectors, c.vector_scale_down_threshold);
    let cache = if cache_up {
        scale(l.cache_size_bytes, if c.aggressive_scaling { 1500 } else { 1200 })
    } else if cache_down {
        scale(l.cache_size_bytes, if c.aggressive_scaling { 800 } else { 900 })
    } else {
        l.cache_size_bytes
    };
    let vectors = if vec_up {
        scale(l.max_vectors, if c.aggressive_scaling { 1400 } else { 1300 })
    } else if vec_down {
        scale(l.max_vectors, if c.aggressive_scaling { 700 } else { 850 })
    } else {
        l.max_vectors
    };
    if cache_up || cache_down || vec_up || vec_down {
        Some(CurrentLimits { max_vectors: vectors, cache_size_bytes: cache, ..l })
    } else {
        None
    }
}

/// The limits one auto-scaling step asks for with `config`, for `usage` and `limits`.
pub fn autoscale_decision(config: &ScalingConfig, usage: &ResourceUsage, limits: &CurrentLimits) -> (r: Option<CurrentLimits>)
    ensures
        r == spec_autoscale(*config, *usage, *limits),
{
    let cache_up = over_exec(usage.current_cache_size, usage.max_cache_size, config.memory_scale_up_threshold);
    let cache_down = !cache_up && under_exec(usage.current_cache_size, usage.max_cache_size, config.memory_scale_down_threshold);
    let vec_up = over_exec(usage.current_vectors, usage.max_vectors, config.vector_scale_up_threshold);
    let vec_down = !vec_up && under_exec(usage.current_vectors, usage.max_vectors, config.vector_scale_down_threshold);
    let cache = if cache_up {
        scale_exec(limits.cache_size_bytes, if config.aggressive_scaling { 1500 } else { 1200 })
    } else if cache_down {
        scale_exec(limits.cache_size_bytes, if config.aggressive_scaling { 800 } else { 900 })
    } else {
        limits.cache_size_bytes
    };
    let vectors = if vec_up {
        scale_exec(limits.max_vectors, if config.aggressive_scaling { 1400 } else { 1300 })
    } else if vec_down {
        scale_exec(limits.max_vectors, if config.aggressive_scaling { 700 } else { 850 })
    } else {
        limits.max_vectors
    };
    if cache_up || cache_down || vec_up || vec_down {
        Some(CurrentLimits { max_vectors: vectors, cache_size_bytes: cache, ..*limits })
    } else {
        None
    }
}

/// Sum of `f(i, values[i])` over the positions of `values`.
pub open spec fn sum_over(values: Seq<u64>, f: spec_fn(int, int) -> int) -> int
    decreases values.len(),
{
    if values.len() == 0 { 0 } else { sum_over(values.drop_last(), f) + f(values.len() - 1, values.last() as int) }
}

/// The least-squares slope of `values` against their positions `0, 1, 2, ...`, as a
/// fraction: `n·Σxy − Σx·Σy` over `n·Σx² − (Σx)²`; zero over one for fewer than two values.
pub open spec fn spec_trend(values: Seq<u64>) -> (int, int) {
    if values.len() < 2 {
        (0, 1)
    } else {
        let n = values.len() as int;
        let sx = sum_over(values, |i: int, y: int| i);
        let sy = sum_over(values, |i: int, y: int| y);
        let sxy = sum_over(values, |i: int, y: int| i * y);
        let sxx = sum_over(values, |i: int, y: int| i * i);
        (n * sxy - sx * sy, n * sxx - sx * sx)
    }
}

/// `Σ (n − i)·(v − values[i])` over the positions `i` of `values`.
pub open spec fn gap_sum(values: Seq<u64>, n: int, v: int) -> int
    decreases values.len(),
{
    if values.len() == 0 {
        0
    } else {
        gap_sum(values.drop_last(), n, v) + (n - (values.len() - 1)) * (v - values.last())
    }
}

/// `Σ (n − i)²` over the positions `i` of `values`.
pub open spec fn square_gap_sum(values: Seq<u64>, n: int) -> int
    decreases values.len(),
{
    if values.len() == 0 {
        0
    } else {
        square_gap_sum(values.drop_last(), n) + (n - (values.len() - 1)) * (n - (values.len() - 1))
    }
}

proof fn lemma_sums_push(values: Seq<u64>, v: u64)
    ensures
        sum_over(values.push(v), |i: int, y: int| i) == sum_over(values, |i: int, y: int| i) + values.len(),
        sum_over(values.push(v), |i: int, y: int| y) == sum_over(values, |i: int, y: int| y) + v,
        sum_over(values.push(v), |i: int, y: int| i * y) == sum_over(values, |i: int, y: int| i * y) + values.len() * v,
        sum_over(values.push(v), |i: int, y: int| i * i) == sum_over(values, |i: int, y: int| i * i) + values.len() * values.len(),
{
    assert(values.push(v).drop_last() =~= values);
}

proof fn lemma_gap_step(g: int, gt: int, k: int, m: int, n: int, v: int, y: int, sx: int, sy: int, sxy: int, sx2: int, sy2: int, sxy2: int)
    by (nonlinear_arith)
    requires
        k == m + 1,
        sx2 == sx + m,
        sy2 == sy + y,
        sxy2 == sxy + m * y,
        g == gt + (n - m) * (v - y),
        gt == m * n * v - n * sy - v * sx + sxy,
    ensures
        g == k * n * v - n * sy2 - v * sx2 + sxy2,
{
}

proof fn lemma_square_gap_step(g: int, gt: int, m: int, n: int, sx: int, sxx: int)
    by (nonlinear_arith)
    requires
        g == gt + (n - m) * (n - m),
        gt == m * n * n - 2 * n * sx + sxx,
    ensures
        g == (m + 1) * n * n - 2 * n * (sx + m) + (sxx + m * m),
{
}

proof fn lemma_gap_expand(values: Seq<u64>, n: int, v: int)
    ensures
        gap_sum(values, n, v) == values.len() * n * v - n * sum_over(values, |i: int, y: int| y)
            - v * sum_over(values, |i: int, y: int| i) + sum_over(values, |i: int, y: int| i * y),
        square_gap_sum(values, n) == values.len() * n * n - 2 * n * sum_over(values, |i: int, y: int| i)
            + sum_over(values, |i: int, y: int| i * i),
    decreases values.len(),
{
    if values.len() > 0 {
        let t = values.drop_last();
        let last = values.last();
        let m = t.len() as int;
        lemma_gap_expand(t, n, v);
        assert(values =~= t.push(last));
        lemma_sums_push(t, last);
        lemma_gap_step(gap_sum(values, n, v), gap_sum(t, n, v), values.len() as int, m, n, v, last as int,
            sum_over(t, |i: int, y: int| i), sum_over(t, |i: int, y: int| y), sum_over(t, |i: int, y: int| i * y),
            sum_over(values, |i: int, y: int| i), sum_over(values, |i: int, y: int| y), sum_over(values, |i: int, y: int| i * y));
        lemma_square_gap_step(square_gap_sum(values, n), square_gap_sum(t, n), m, n,
            sum_over(t, |i: int, y: int| i), sum_over(t, |i: int, y: int| i * i));
    } else {
        assert(values.len() * n * v == 0 && values.len() * n * n == 0) by (nonlinear_arith)
            requires values.len() == 0;
    }
}

proof fn lemma_trend_step(n: int, v: int, sx: int, sy: int, sxy: int, sxx: int)
    by (nonlinear_arith)
    ensures
        (n + 1) * (sxy + n * v) - (sx + n) * (sy + v) == (n * sxy - sx * sy) + (n * n * v - n * sy - v * sx + sxy),
        (n + 1) * (sxx + n * n) - (sx + n) * (sx + n) == (n * sxx - sx * sx) + (n * n * n - 2 * n * sx + sxx),
{
}

proof fn lemma_gaps_positive(values: Seq<u64>, n: int, v: int)
    requires
        values.len() <= n,
        forall|i: int| 0 <= i < values.len() ==> (#[trigger] values[i]) < v,
    ensures
        gap_sum(values, n, v) >= 0,
        square_gap_sum(values, n) >= 0,
        values.len() > 0 ==> gap_sum(values, n, v) > 0 && square_gap_sum(values, n) > 0,
    decreases values.len(),
{
    if values.len() > 0 {
        let t = values.drop_last();
        let m = t.len() as int;
        assert forall|i: int| 0 <= i < t.len() implies (#[trigger] t[i]) < v by {
            assert(t[i] == values[i]);
        }
        lemma_gaps_positive(t, n, v);
        let y = values.last();
        assert(y < v);
        assert((n - m) * (v - y) >= 1) by (nonlinear_arith)
            requires n - m >= 1, v - y >= 1;
        assert((n - m) * (n - m) >= 1) by (nonlinear_arith)
            requires n - m >= 1;
    }
}

/// Rising use gives a positive trend: when every value is above the one before, the slope's
/// numerator and denominator are both positive.
pub proof fn lemma_rising_values_give_positive_trend(values: Seq<u64>)
    requires
        values.len() >= 2,
        forall|i: int, j: int| 0 <= i < j < values.len() ==> values[i] < values[j],
    ensures
        spec_trend(values).0 > 0,
        spec_trend(values).1 > 0,
    decreases values.len(),
{
    let t = values.drop_last();
    let v = values.last();
    let n = t.len() as int;
    assert(values =~= t.push(v));
    lemma_sums_push(t, v);
    lemma_gap_expand(t, n, v as int);
    assert forall|i: int| 0 <= i < t.len() implies (#[trigger] t[i]) < v by {
        assert(t[i] == values[i]);
    }
    lemma_gaps_positive(t, n, v as int);
    let sx = sum_over(t, |i: int, y: int| i);
    let sy = sum_over(t, |i: int, y: int| y);
    let sxy = sum_over(t, |i: int, y: int| i * y);
    let sxx = sum_over(t, |i: int, y: int| i * i);
    lemma_trend_step(n, v as int, sx, sy, sxy, sxx);
    if n >= 2 {
        assert forall|i: int, j: int| 0 <= i < j < t.len() implies t[i] < t[j] by {
            assert(t[i] == values[i] && t[j] == values[j]);
        }
        lemma_rising_values_give_positive_trend(t);
    } else {
        assert(n == 1);
        let y0 = t[0];
        let e = Seq::<u64>::empty();
        assert(t =~= e.push(y0));
        lemma_sums_push(e, y0);
        assert(e.len() * y0 == 0 && e.len() * e.len() == 0) by (nonlinear_arith)
            requires e.len() == 0;
        assert(sx == 0 && sxy == 0 && sxx == 0);
        assert(sy == y0);
    }
}

/// The trend of at most ten values.
pub fn calculate_trend(values: &Vec<u64>) -> (t: Trend)
    requires
        values@.len() <= 10,
    ensures
        (t.numerator as int, t.denominator as int) == spec_trend(values@),
{
    if values.len() < 2 {
        return Trend { numerator: 0, denominator: 1 };
    }
    let mut sx: i128 = 0;
    let mut sy: i128 = 0;
    let mut sxy: i128 = 0;
    let mut sxx: i128 = 0;
    let mut i: usize = 0;
    while i < values.len()
        invariant
            i <= values@.len(),
            values@.len() <= 10,
            sx == sum_over(values@.take(i as int), |i: int, y: int| i),
            sy == sum_over(values@.take(i as int), |i: int, y: int| y),
            sxy == sum_over(values@.take(i as int), |i: int, y: int| i * y),
            sxx == sum_over(values@.take(i as int), |i: int, y: int| i * i),
            0 <= sx <= 10 * i,
            0 <= sy <= 0x1_0000_0000_0000_0000 * i,
            0 <= sxy <= 0x10_0000_0000_0000_0000 * i,
            0 <= sxx <= 100 * i,
        decreases values@.len() - i,
    {
        let ghost t = values@.take(i + 1);
        proof {
            assert(t.drop_last() =~= values@.take(i as int));
            assert(t.len() - 1 == i);
            assert(t.last() == values@[i as int]);
        }
        let x = i as i128;
        let y = values[i] as i128;
        proof {
            assert(x * y <= 0x10_0000_0000_0000_0000) by (nonlinear_arith)
                requires 0 <= x <= 10, 0 <= y <= 0xffff_ffff_ffff_ffff;
            assert(x * y >= 0) by (nonlinear_arith)
                requires 0 <= x, 0 <= y;
            assert(x * x <= 100) by (nonlinear_arith)
                requires 0 <= x <= 10;
        }
        sx = sx + x;
        sy = sy + y;
        sxy = sxy + x * y;
        sxx = sxx + x * x;
        i = i + 1;
    }
    proof { assert(values@.take(values@.len() as int) =~= values@); }
    let n = values.len() as i128;
    proof {
        assert(n * sxy <= 10 * 0xa0_0000_0000_0000_0000) by (nonlinear_arith)
            requires 0 <= n <= 10, 0 <= sxy <= 0xa0_0000_0000_0000_0000;
        assert(sx * sy <= 100 * 0xa_0000_0000_0000_0000) by (nonlinear_arith)
            requires 0 <= sx <= 100, 0 <= sy <= 0xa_0000_0000_0000_0000;
        assert(n * sxx <= 10 * 1000) by (nonlinear_arith)
            requires 0 <= n <= 10, 0 <= sxx <= 1000;
        assert(sx * sx <= 100 * 100) by (nonlinear_arith)
            requires 0 <= sx <= 100;
        assert(n * sxy >= 0 && sx * sy >= 0 && n * sxx >= 0 && sx * sx >= 0) by (nonlinear_arith)
            requires 0 <= n, 0 <= sxy, 0 <= sx, 0 <= sy, 0 <= sxx;
    }
    Trend { numerator: n * sxy - sx * sy, denominator: n * sxx - sx * sx }
}

/// The figures after a snapshot of `u`: the peaks raised, the moving averages moved a tenth
/// of the way to the new values (rounded down).
pub open spec fn spec_updated_metrics(m: ResourceMetrics, u: ResourceUsage) -> ResourceMetrics {
    ResourceMetrics {
        peak_memory_usage: if u.cache_usage > m.peak_memory_usage { u.cache_usage } else { m.peak_memory_usage },
        peak_vector_count: if u.current_vectors > m.peak_vector_count { u.current_vectors } else { m.peak_vector_count },
        avg_memory_usage: ((u.cache_usage + 9 * m.avg_memory_usage) / 10) as u64,
        avg_vector_count: ((u.current_vectors + 9 * m.avg_vector_count) / 10) as u64,
        ..m
    }
}

/// The alerts after the periodic sweep at `now`: open alerts older than an hour are
/// resolved, and resolved alerts older than a day are dropped.
pub open spec fn alert_kept(a: ResourceAlert, now: u64) -> bool {
    !(alert_resolved_at(a, now) && spec_elapsed(now, a.timestamp_ms) > 86_400_000)
}

/// Whether an alert counts as resolved after the sweep at `now`.
pub open spec fn alert_resolved_at(a: ResourceAlert, now: u64) -> bool {
    a.resolved || spec_elapsed(now, a.timestamp_ms) > 3_600_000
}

/// Controls the store's resources and scales its limits.
pub struct ResourceController {
    resource_manager: ResourceManager,
    ready: bool,
    resource_metrics: ResourceMetrics,
    scaling_config: ScalingConfig,
    /// Snapshots, oldest first.
    usage_history: Vec<ResourceSnapshot>,
    load_predictor: LoadPredictor,
    resource_alerts: Vec<ResourceAlert>,
}

impl ResourceController {
    pub closed spec fn manager(&self) -> ResourceManager {
        self.resource_manager
    }

    pub closed spec fn is_on(&self) -> bool {
        self.ready
    }

    pub closed spec fn figures(&self) -> ResourceMetrics {
        self.resource_metrics
    }

    pub closed spec fn scaling(&self) -> ScalingConfig {
        self.scaling_config
    }

    pub closed spec fn snapshots(&self) -> Seq<ResourceSnapshot> {
        self.usage_history@
    }

    pub closed spec fn predictor(&self) -> LoadPredictor {
        self.load_predictor
    }

    pub closed spec fn alerts(&self) -> Seq<ResourceAlert> {
        self.resource_alerts@
    }

    /// The manager is well formed and at most 288 snapshots (a day every five minutes) are
    /// kept.
    pub open spec fn wf(&self) -> bool {
        self.manager().wf() && self.snapshots().len() <= 288
    }

    fn with_config(resource_manager: ResourceManager, scaling_config: ScalingConfig) -> (c: Self)
        requires
            resource_manager.wf(),
        ensures
            c.wf(),
            c.manager() == resource_manager,
            !c.is_on(),
            c.scaling() == scaling_config,
            c.figures() == (ResourceMetrics {
                peak_memory_usage: 0,
                avg_memory_usage: 0,
                peak_vector_count: 0,
                avg_vector_count: 0,
                cache_hit_rate: 0,
                gc_frequency: 0,
                scaling_events: 0,
                last_scaling_event_ms: None,
            }),
            c.snapshots().len() == 0,
            c.alerts().len() == 0,
            c.predictor() == (LoadPredictor {
                trend_memory: Trend { numerator: 0, denominator: 1 },
                trend_vectors: Trend { numerator: 0, denominator: 1 },
                seasonal_factor: 0,
                prediction_confidence: 0,
            }),
    {
        ResourceController {
            resource_manager,
            ready: false,
            resource_metrics: ResourceMetrics {
                peak_memory_usage: 0,
                avg_memory_usage: 0,
                peak_vector_count: 0,
                avg_vector_count: 0,
                cache_hit_rate: 0,
                gc_frequency: 0,
                scaling_events: 0,
                last_scaling_event_ms: None,
            },
            scaling_config,
            usage_history: Vec::new(),
            load_predictor: LoadPredictor {
                trend_memory: Trend { numerator: 0, denominator: 1 },
                trend_vectors: Trend { numerator: 0, denominator: 1 },
                seasonal_factor: 0,
                prediction_confidence: 0,
            },
            resource_alerts: Vec::new(),
        }
    }

    /// A controller of `resource_manager` with the standard scaling configuration, not ready.
    pub fn new(resource_manager: ResourceManager) -> (c: Self)
        requires
            resource_manager.wf(),
        ensures
            c.wf(),
            c.manager() == resource_manager,
            !c.is_on(),
            c.scaling().memory_scale_up_threshold == 80 && c.scaling().memory_scale_down_threshold == 40,
            c.scaling().vector_scale_up_threshold == 85 && c.scaling().vector_scale_down_threshold == 30,
            c.scaling().scale_up_cooldown_ms == 300_000 && c.scaling().scale_down_cooldown_ms == 900_000,
            !c.scaling().aggressive_scaling && c.scaling().predictive_scaling,
            c.figures().scaling_events == 0 && c.figures().last_scaling_event_ms is None,
            c.snapshots().len() == 0,
            c.alerts().len() == 0,
    {
        Self::with_config(resource_manager, ScalingConfig::standard())
    }

    /// A controller of `resource_manager` with the production scaling configuration, not
    /// ready.
    pub fn new_production(resource_manager: ResourceManager) -> (c: Self)
        requires
            resource_manager.wf(),
        ensures
            c.wf(),
            c.manager() == resource_manager,
            !c.is_on(),
            c.scaling().memory_scale_up_threshold == 75 && c.scaling().memory_scale_down_threshold == 35,
            c.scaling().vector_scale_up_threshold == 80 && c.scaling().vector_scale_down_threshold == 25,
            c.scaling().scale_up_cooldown_ms == 180_000 && c.scaling().scale_down_cooldown_ms == 600_000,
            c.scaling().aggressive_scaling && c.scaling().predictive_scaling,
            c.figures().scaling_events == 0 && c.figures().last_scaling_event_ms is None,
            c.snapshots().len() == 0,
            c.alerts().len() == 0,
    {
        Self::with_config(resource_manager, ScalingConfig::production())
    }

    /// Whether the controller is ready.
    pub fn is_ready(&self) -> (b: bool)
        ensures
            b == self.is_on(),
    {
        self.ready
    }

    /// The store's usage as the manager estimates it.
    pub fn resource_usage(&self) -> (u: ResourceUsage)
        ensures
            u == (ResourceUsage {
                current_vectors: 50_000,
                max_vectors: self.manager().limits().max_vectors,
                vector_usage: share(50_000, self.manager().limits().max_vectors),
                current_cache_size: self.manager().limits().cache_size_bytes / 2,
                max_cache_size: self.manager().limits().cache_size_bytes,
                cache_usage: share(self.manager().limits().cache_size_bytes / 2, self.manager().limits().cache_size_bytes),
            }),
    {
        self.resource_manager.current_usage()
    }

    /// The vector limit and the cache limit in whole MiB.
    pub fn get_limits(&self) -> (r: (u64, u64))
        ensures
            r == (self.manager().limits().max_vectors, self.manager().limits().cache_size_bytes / 1024 / 1024),
    {
        let l = self.resource_manager.get_current_limits();
        (l.max_vectors, l.cache_size_bytes / 1024 / 1024)
    }

    /// Records a snapshot of the usage at `now_ms`, keeping the latest 288, and updates the
    /// figures.
    pub fn record_resource_snapshot(&mut self, now_ms: u64)
        requires
            old(self).wf(),
        ensures
            final(self).wf(),
            ({
                let u = old(self).manager().current_usage_spec();
                &&& final(self).snapshots() == ({
                    let pushed = old(self).snapshots().push(ResourceSnapshot {
                        timestamp_ms: now_ms,
                        memory_usage: u.cache_usage,
                        vector_usage: u.vector_usage,
                        cache_usage: u.cache_usage,
                        operations_per_second: 0,
                    });
                    if pushed.len() > 288 { pushed.drop_first() } else { pushed }
                })
                &&& final(self).figures() == spec_updated_metrics(old(self).figures(), u)
            }),
            final(self).manager() == old(self).manager(),
            final(self).alerts() == old(self).alerts(),
            final(self).is_on() == old(self).is_on(),
            final(self).scaling() == old(self).scaling(),
    {
        let u = self.resource_manager.current_usage();
        let snap = ResourceSnapshot {
            timestamp_ms: now_ms,
            memory_usage: u.cache_usage,
            vector_usage: u.vector_usage,
            cache_usage: u.cache_usage,
            operations_per_second: 0,
        };
        let ghost pushed = self.usage_history@.push(snap);
        self.usage_history.push(snap);
        if self.usage_history.len() > 288 {
            self.usage_history.remove(0);
            proof { assert(self.usage_history@ =~= pushed.drop_first()); }
        }
        let m = &mut self.resource_metrics;
        if u.cache_usage > m.peak_memory_usage {
            m.peak_memory_usage = u.cache_usage;
        }
        if u.current_vectors > m.peak_vector_count {
            m.peak_vector_count = u.current_vectors;
        }
        m.avg_memory_usage = ((u.cache_usage as u128 + 9 * m.avg_memory_usage as u128) / 10) as u64;
        m.avg_vector_count = ((u.current_vectors as u128 + 9 * m.avg_vector_count as u128) / 10) as u64;
    }

    /// Starts the controller at `now_ms`: a first snapshot is recorded and it becomes ready.
    pub fn initialize(&mut self, now_ms: u64)
        requires
            old(self).wf(),
        ensures
            final(self).wf(),
            final(self).is_on(),
            final(self).snapshots().len() > 0,
            final(self).snapshots().last().timestamp_ms == now_ms,
            final(self).manager() == old(self).manager(),
    {
        self.record_resource_snapshot(now_ms);
        self.ready = true;
    }

    /// Stops the controller: it is no longer ready.
    pub fn shutdown(&mut self)
        ensures
            !final(self).is_on(),
            final(self).manager() == old(self).manager(),
            final(self).snapshots() == old(self).snapshots(),
            final(self).alerts() == old(self).alerts(),
            final(self).figures() == old(self).figures(),
    {
        self.ready = false;
    }

    /// Whether an operation may use resources now: not while memory is under pressure.
    pub fn check_resources(&mut self, _operation: &str, now_ms: u64) -> (ok: bool)
        requires
            old(self).wf(),
        ensures
            final(self).wf(),
            ok == !(sample_mean_of(final(self).manager()) > old(self).manager().cfg().critical_memory_usage_percent * 100),
            final(self).manager().limits() == old(self).manager().limits(),
    {
        !self.resource_manager.is_memory_pressure(now_ms)
    }

    /// Lets the manager adapt its limits at `now_ms`.
    pub fn adapt_limits(&mut self, now_ms: u64) -> (changed: bool)
        requires
            old(self).wf(),
        ensures
            final(self).wf(),
            old(self).manager().limits_update(final(self).manager(), old(self).manager().current_usage_spec(), now_ms, changed),
            final(self).alerts() == old(self).alerts(),
            final(self).snapshots() == old(self).snapshots(),
            final(self).figures() == old(self).figures(),
            final(self).scaling() == old(self).scaling(),
            final(self).predictor() == old(self).predictor(),
            final(self).is_on() == old(self).is_on(),
    {
        self.resource_manager.adapt_limits(now_ms)
    }

    /// Raises an alert of `alert_type` with `message` at `now_ms`, keeping the latest 50.
    pub fn create_alert(&mut self, alert_type: ResourceAlertType, message: String, now_ms: u64)
        ensures
            ({
                let pushed_len: int = old(self).alerts().len() as int + 1;
                &&& final(self).alerts().len() == (if pushed_len > 50 { pushed_len - 1 } else { pushed_len })
                &&& final(self).alerts().last().alert_type == alert_type
                &&& final(self).alerts().last().message == message
                &&& final(self).alerts().last().id@ == "resource_"@ + decimal(now_ms as nat)
                &&& final(self).alerts().last().timestamp_ms == now_ms
                &&& !final(self).alerts().last().resolved
                &&& final(self).alerts().drop_last() == (if pushed_len > 50 { old(self).alerts().drop_first() } else { old(self).alerts() })
            }),
            final(self).manager() == old(self).manager(),
            final(self).snapshots() == old(self).snapshots(),
            final(self).figures() == old(self).figures(),
            final(self).is_on() == old(self).is_on(),
    {
        let mut id = String::new();
        id.append("resource_");
        push_decimal(&mut id, now_ms);
        let alert = ResourceAlert { id, alert_type, message, timestamp_ms: now_ms, resolved: false };
        let ghost before = self.resource_alerts@;
        self.resource_alerts.push(alert);
        if self.resource_alerts.len() > 50 {
            self.resource_alerts.remove(0);
            proof {
                assert(self.resource_alerts@.drop_last() =~= before.drop_first());
            }
        } else {
            proof {
                assert(self.resource_alerts@.drop_last() =~= before);
            }
        }
    }

    /// Frees resources at `now_ms`: the limits are cut by a fifth and put back, and an alert
    /// reports what was freed.
    pub fn free_resources(&mut self, now_ms: u64)
        requires
            old(self).wf(),
        ensures
            final(self).wf(),
            final(self).manager().limits() == old(self).manager().limits(),
            final(self).alerts().len() > 0,
            final(self).alerts().last().alert_type == ResourceAlertType::ResourceExhaustion,
            final(self).alerts().last().message@ == "Принудительно освобождено: 0.0MB memory, 0 vectors"@,
    {
        let before = self.resource_manager.current_usage().current_cache_size;
        let current = self.resource_manager.get_current_limits();
        let temp = CurrentLimits {
            max_vectors: scale_exec(current.max_vectors, 800),
            cache_size_bytes: scale_exec(current.cache_size_bytes, 800),
            last_scaled_ms: current.last_scaled_ms,
            scaling_factor: scale_exec(current.scaling_factor, 800),
        };
        self.resource_manager.apply_limits(temp);
        self.resource_manager.apply_limits(current);
        let after = self.resource_manager.current_usage().current_cache_size;
        let freed: u64 = if before >= after { before - after } else { 0 };
        let tenths: u128 = (freed as u128 * 10 + 524_288) / 1_048_576;
        let mut message = String::new();
        message.append("Принудительно освобождено: ");
        push_decimal_wide(&mut message, tenths / 10);
        message.append(".");
        push_decimal_wide(&mut message, tenths % 10);
        message.append("MB memory, 0 vectors");
        proof {
            reveal_strlit("0");
            assert(decimal(0) == seq!['0']);
            assert(message@ =~= "Принудительно освобождено: 0.0MB memory, 0 vectors"@) by {
                reveal_strlit("Принудительно освобождено: ");
                reveal_strlit(".");
                reveal_strlit("MB memory, 0 vectors");
                reveal_strlit("Принудительно освобождено: 0.0MB memory, 0 vectors");
            }
        }
        self.create_alert(ResourceAlertType::ResourceExhaustion, message, now_ms);
    }

    /// One tick of resource monitoring at `now_ms`: the alerts the current usage calls for
    /// are raised (these are not capped).
    pub fn monitoring_tick(&mut self, now_ms: u64)
        ensures
            final(self).alerts().len() == old(self).alerts().len() + spec_monitoring_alerts(old(self).manager().current_usage_spec()).len(),
            final(self).alerts().take(old(self).alerts().len() as int) == old(self).alerts(),
            forall|k: int| 0 <= k < final(self).alerts().len() - old(self).alerts().len() ==> {
                let a = #[trigger] final(self).alerts()[old(self).alerts().len() + k];
                let (t, m) = spec_monitoring_alerts(old(self).manager().current_usage_spec())[k];
                &&& a.alert_type == t && a.message@ == m && a.timestamp_ms == now_ms && !a.resolved
                &&& a.id@ == "resource_"@ + decimal(now_ms as nat)
            },
            final(self).manager() == old(self).manager(),
            final(self).snapshots() == old(self).snapshots(),
            final(self).figures() == old(self).figures(),
            final(self).is_on() == old(self).is_on(),
    {
        let usage = self.resource_manager.current_usage();
        let raised = monitoring_alerts(&usage);
        let ghost base = self.resource_alerts@;
        let ghost spec_raised = spec_monitoring_alerts(usage);
        let mut rest = raised;
        let ghost all = rest@;
        let total = rest.len();
        let mut i: usize = 0;
        while rest.len() > 0
            invariant
                all.len() == total,
                all.map_values(|a: (ResourceAlertType, String)| (a.0, a.1@)) == spec_raised,
                rest@ == all.skip(i as int),
                i <= all.len(),
                self.resource_alerts@.len() == base.len() + i,
                self.resource_alerts@.take(base.len() as int) == base,
                forall|k: int| 0 <= k < i ==> {
                    let a = #[trigger] self.resource_alerts@[base.len() + k];
                    &&& a.alert_type == spec_raised[k].0 && a.message@ == spec_raised[k].1 && a.timestamp_ms == now_ms && !a.resolved
                    &&& a.id@ == "resource_"@ + decimal(now_ms as nat)
                },
                self.resource_manager == old(self).resource_manager,
                self.usage_history == old(self).usage_history,
                self.resource_metrics == old(self).resource_metrics,
                self.ready == old(self).ready,
            decreases rest@.len(),
        {
            proof {
                assert(all.skip(i as int)[0] == all[i as int]);
                assert(spec_raised[i as int] == (all[i as int].0, all[i as int].1@));
            }
            let (t, m) = rest.remove(0);
            proof { assert(rest@ =~= all.skip(i + 1)); }
            let mut id = String::new();
            id.append("resource_");
            push_decimal(&mut id, now_ms);
            let ghost before = self.resource_alerts@;
            self.resource_alerts.push(ResourceAlert { id, alert_type: t, message: m, timestamp_ms: now_ms, resolved: false });
            proof {
                assert(self.resource_alerts@.take(base.len() as int) =~= before.take(base.len() as int));
                assert forall|k: int| 0 <= k < i + 1 implies {
                    let a = #[trigger] self.resource_alerts@[base.len() + k];
                    &&& a.alert_type == spec_raised[k].0 && a.message@ == spec_raised[k].1 && a.timestamp_ms == now_ms && !a.resolved
                    &&& a.id@ == "resource_"@ + decimal(now_ms as nat)
                } by {
                    if k < i {
                        assert(self.resource_alerts@[base.len() + k] == before[base.len() + k]);
                    }
                }
            }
            i = i + 1;
        }
        proof { assert(i == all.len()); }
    }

    /// One auto-scaling tick at `now_ms`: unless the last scaling is more recent than the
    /// scale-up cooldown, the limits are scaled as `autoscale_decision` asks and the scaling is
    /// counted. Returns whether the limits changed.
    pub fn autoscaling_tick(&mut self, now_ms: u64) -> (changed: bool)
        requires
            old(self).wf(),
        ensures
            final(self).wf(),
            ({
                let in_cooldown = match old(self).figures().last_scaling_event_ms {
                    Some(t) => spec_elapsed(now_ms, t) < old(self).scaling().scale_up_cooldown_ms,
                    None => false,
                };
                let decision = spec_autoscale(old(self).scaling(), old(self).manager().current_usage_spec(), old(self).manager().limits());
                if in_cooldown || decision is None {
                    !changed && final(self).manager() == old(self).manager() && final(self).figures() == old(self).figures()
                } else {
                    &&& changed
                    &&& final(self).manager().limits() == decision->0
                    &&& final(self).manager().events() == old(self).manager().events()
                    &&& final(self).figures() == (ResourceMetrics {
                        scaling_events: bump(old(self).figures().scaling_events),
                        last_scaling_event_ms: Some(now_ms),
                        ..old(self).figures()
                    })
                }
            }),
            final(self).alerts() == old(self).alerts(),
            final(self).snapshots() == old(self).snapshots(),
            final(self).is_on() == old(self).is_on(),
    {
        match self.resource_metrics.last_scaling_event_ms {
            Some(t) => {
                if elapsed_ms(now_ms, t) < self.scaling_config.scale_up_cooldown_ms {
                    return false;
                }
            },
            None => {},
        }
        let usage = self.resource_manager.current_usage();
        let limits = self.resource_manager.get_current_limits();
        match autoscale_decision(&self.scaling_config, &usage, &limits) {
            Some(new_limits) => {
                self.resource_manager.apply_limits(new_limits);
                self.resource_metrics.scaling_events = bump_exec(self.resource_metrics.scaling_events);
                self.resource_metrics.last_scaling_event_ms = Some(now_ms);
                true
            },
            None => false,
        }
    }

    /// One predictive tick: with predictive scaling on and at least 20 snapshots, the trends
    /// of memory and vector use over the latest ten snapshots, oldest to newest, are computed,
    /// so that rising use gives a positive trend.
    pub fn predictive_tick(&mut self)
        requires
            old(self).wf(),
        ensures
            final(self).wf(),
            ({
                let h = old(self).snapshots();
                if !old(self).scaling().predictive_scaling || h.len() < 20 {
                    final(self).predictor() == old(self).predictor()
                } else {
                    let recent = h.skip(h.len() - 10);
                    let (mn, md) = spec_trend(recent.map_values(|s: ResourceSnapshot| s.memory_usage));
                    let (vn, vd) = spec_trend(recent.map_values(|s: ResourceSnapshot| s.vector_usage));
                    &&& final(self).predictor().trend_memory.numerator == mn
                    &&& final(self).predictor().trend_memory.denominator == md
                    &&& final(self).predictor().trend_vectors.numerator == vn
                    &&& final(self).predictor().trend_vectors.denominator == vd
                    &&& final(self).predictor().prediction_confidence == 8
                    &&& final(self).predictor().seasonal_factor == old(self).predictor().seasonal_factor
                }
            }),
            final(self).manager() == old(self).manager(),
            final(self).snapshots() == old(self).snapshots(),
            final(self).alerts() == old(self).alerts(),
            final(self).figures() == old(self).figures(),
            final(self).is_on() == old(self).is_on(),
    {
        if !self.scaling_config.predictive_scaling || self.usage_history.len() < 20 {
            return;
        }
        let h = &self.usage_history;
        let n = h.len();
        let ghost recent = h@.skip(n - 10);
        let mut mem: Vec<u64> = Vec::new();
        let mut vecs: Vec<u64> = Vec::new();
        let mut k: usize = 0;
        while k < 10
            invariant
                n == h@.len(),
                n >= 20,
                k <= 10,
                recent == h@.skip(n - 10),
                mem@ == recent.take(k as int).map_values(|s: ResourceSnapshot| s.memory_usage),
                vecs@ == recent.take(k as int).map_values(|s: ResourceSnapshot| s.vector_usage),
            decreases 10 - k,
        {
            let s = h[n - 10 + k];
            proof {
                assert(recent[k as int] == h@[n - 10 + k]);
                assert(recent.take(k + 1) =~= recent.take(k as int).push(recent[k as int]));
            }
            mem.push(s.memory_usage);
            vecs.push(s.vector_usage);
            proof {
                assert(mem@ =~= recent.take(k + 1).map_values(|s: ResourceSnapshot| s.memory_usage));
                assert(vecs@ =~= recent.take(k + 1).map_values(|s: ResourceSnapshot| s.vector_usage));
            }
            k = k + 1;
        }
        proof {
            assert(recent.take(10) =~= recent);
        }
        let tm = calculate_trend(&mem);
        let tv = calculate_trend(&vecs);
        self.load_predictor.trend_memory = tm;
        self.load_predictor.trend_vectors = tv;
        self.load_predictor.prediction_confidence = 8;
    }

    /// The periodic sweep of the alerts at `now_ms`: open alerts older than an hour become
    /// resolved, and resolved alerts older than a day are dropped; the order is kept.
    pub fn alert_processing_tick(&mut self, now_ms: u64)
        ensures
            final(self).alerts().len() <= old(self).alerts().len(),
            final(self).alerts().len() == old(self).alerts().filter(|a: ResourceAlert| alert_kept(a, now_ms)).len(),
            forall|k: int| 0 <= k < final(self).alerts().len() ==> {
                let a = #[trigger] final(self).alerts()[k];
                let o = old(self).alerts().filter(|a: ResourceAlert| alert_kept(a, now_ms))[k];
                a.id == o.id && a.alert_type == o.alert_type && a.message == o.message
                    && a.timestamp_ms == o.timestamp_ms && a.resolved == alert_resolved_at(o, now_ms)
            },
            final(self).manager() == old(self).manager(),
            final(self).snapshots() == old(self).snapshots(),
            final(self).figures() == old(self).figures(),
            final(self).is_on() == old(self).is_on(),
    {
        let ghost pred = |a: ResourceAlert| alert_kept(a, now_ms);
        let ghost all = self.resource_alerts@;
        let mut rest: Vec<ResourceAlert> = Vec::new();
        std::mem::swap(&mut rest, &mut self.resource_alerts);
        let total = rest.len();
        let mut kept: Vec<ResourceAlert> = Vec::new();
        let mut i: usize = 0;
        while rest.len() > 0
            invariant
                all.len() == total,
                rest@ == all.skip(i as int),
                i <= all.len(),
                pred == (|a: ResourceAlert| alert_kept(a, now_ms)),
                kept@.len() == all.take(i as int).filter(pred).len(),
                forall|k: int| 0 <= k < kept@.len() ==> {
                    let a = #[trigger] kept@[k];
                    let o = all.take(i as int).filter(pred)[k];
                    a.id == o.id && a.alert_type == o.alert_type && a.message == o.message
                        && a.timestamp_ms == o.timestamp_ms && a.resolved == alert_resolved_at(o, now_ms)
                },
                self.resource_manager == old(self).resource_manager,
                self.usage_history == old(self).usage_history,
                self.resource_metrics == old(self).resource_metrics,
                self.ready == old(self).ready,
            decreases rest@.len(),
        {
            proof {
                assert(all.skip(i as int)[0] == all[i as int]);
                assert(all.take(i + 1) =~= all.take(i as int).push(all[i as int]));
                all.take(i as int).lemma_filter_push(all[i as int], pred);
            }
            let mut a = rest.remove(0);
            proof { assert(rest@ =~= all.skip(i + 1)); }
            let age = elapsed_ms(now_ms, a.timestamp_ms);
            if !a.resolved && age > 3_600_000 {
                a.resolved = true;
            }
            let ghost before = kept@;
            if !(a.resolved && age > 86_400_000) {
                kept.push(a);
                proof {
                    assert forall|k: int| 0 <= k < kept@.len() implies {
                        let a = #[trigger] kept@[k];
                        let o = all.take(i + 1).filter(pred)[k];
                        a.id == o.id && a.alert_type == o.alert_type && a.message == o.message
                            && a.timestamp_ms == o.timestamp_ms && a.resolved == alert_resolved_at(o, now_ms)
                    } by {
                        if k < before.len() {
                            assert(kept@[k] == before[k]);
                        }
                    }
                }
            }
            i = i + 1;
        }
        proof {
            assert(all.take(i as int) =~= all);
        }
        self.resource_alerts = kept;
    }

    /// The lines describing the open alerts at `now_ms`, in order: type, message and age.
    pub fn active_alert_lines(&self, now_ms: u64) -> (r: Vec<String>)
        ensures
            r@.map_values(|s: String| s@) == self.alerts().filter(|a: ResourceAlert| !a.resolved).map_values(|a: ResourceAlert|
                alert_type_name(a.alert_type) + ": "@ + a.message@ + " ("@ + elapsed_text((spec_elapsed(now_ms, a.timestamp_ms) / 1000) as nat) + ")"@),
    {
        let al = &self.resource_alerts;
        let ghost pred = |a: ResourceAlert| !a.resolved;
        let ghost f = |a: ResourceAlert| alert_type_name(a.alert_type) + ": "@ + a.message@ + " ("@
            + elapsed_text((spec_elapsed(now_ms, a.timestamp_ms) / 1000) as nat) + ")"@;
        let mut out: Vec<String> = Vec::new();
        let mut i: usize = 0;
        while i < al.len()
            invariant
                i <= al@.len(),
                pred == (|a: ResourceAlert| !a.resolved),
                f == (|a: ResourceAlert| alert_type_name(a.alert_type) + ": "@ + a.message@ + " ("@
                    + elapsed_text((spec_elapsed(now_ms, a.timestamp_ms) / 1000) as nat) + ")"@),
                out@.map_values(|s: String| s@) == al@.take(i as int).filter(pred).map_values(f),
            decreases al@.len() - i,
        {
            let ghost before = out@;
            proof {
                assert(al@.take(i + 1) =~= al@.take(i as int).push(al@[i as int]));
                al@.take(i as int).lemma_filter_push(al@[i as int], pred);
            }
            let a = &al[i];
            if !a.resolved {
                let mut line = String::new();
                line.append(a.alert_type.name());
                line.append(": ");
                line.append(a.message.as_str());
                line.append(" (");
                let age = format_elapsed(elapsed_ms(now_ms, a.timestamp_ms) / 1000);
                line.append(age.as_str());
                line.append(")");
                out.push(line);
                proof {
                    let ft = al@.take(i as int).filter(pred);
                    assert(out@.map_values(|s: String| s@) =~= before.map_values(|s: String| s@).push(f(al@[i as int])));
                    assert(ft.push(al@[i as int]).map_values(f) =~= ft.map_values(f).push(f(al@[i as int])));
                }
            }
            i = i + 1;
        }
        proof { assert(al@.take(al@.len() as int) =~= al@); }
        out
    }
}

/// The mean memory reading of a manager's monitor.
pub open spec fn sample_mean_of(m: ResourceManager) -> int {
    crate::resource_manager::sample_mean(m.readings())
}

} // verus!
