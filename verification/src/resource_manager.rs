//! Dynamic limits for the memory store: how many vectors and how large a cache it may use,
//! scaled up and down with the machine's memory use.
//!
//! Percentages are kept in hundredths of a percent (10000 is 100 %) and scaling factors in
//! thousandths (1000 is a factor of one). Times are milliseconds. Memory figures are read
//! through `sysinfo`.

use vstd::prelude::*;

use crate::clock::{elapsed_ms, spec_elapsed};

verus! {

#[verifier::external_type_specification]
#[verifier::external_body]
pub struct ExSystem(sysinfo::System);

/// Calls `sysinfo::System::new_all`, which builds a view of the machine with every kind of
/// information loaded. What it loads depends on the machine; nothing is claimed of it.
#[verifier::external_body]
fn system_new_all() -> (s: sysinfo::System) {
    sysinfo::System::new_all()
}

/// Calls `sysinfo::System::refresh_all`, which reloads every kind of information.
#[verifier::external_body]
fn system_refresh_all(s: &mut sysinfo::System) {
    s.refresh_all()
}

/// Calls `sysinfo::System::refresh_memory`, which reloads the RAM and swap figures.
#[verifier::external_body]
fn system_refresh_memory(s: &mut sysinfo::System) {
    s.refresh_memory()
}

/// Calls `sysinfo::System::total_memory`: the RAM size in bytes, as last loaded. It
/// depends on the machine; nothing is claimed of it.
#[verifier::external_body]
fn system_total_memory(s: &sysinfo::System) -> (n: u64) {
    s.total_memory()
}

/// Calls `sysinfo::System::used_memory`: the RAM in use, in bytes, as last loaded. It
/// depends on the machine; nothing is claimed of it.
#[verifier::external_body]
fn system_used_memory(s: &sysinfo::System) -> (n: u64) {
    s.used_memory()
}

/// Calls `sysinfo::System::available_memory`: the RAM available for use, in bytes, as last
/// loaded. It depends on the machine; nothing is claimed of it.
#[verifier::external_body]
fn system_available_memory(s: &sysinfo::System) -> (n: u64) {
    s.available_memory()
}

/// Calls `sysinfo::System::total_swap`: the swap size in bytes, as last loaded. It depends
/// on the machine; nothing is claimed of it.
#[verifier::external_body]
fn system_total_swap(s: &sysinfo::System) -> (n: u64) {
    s.total_swap()
}

/// Calls `sysinfo::System::used_swap`: the swap in use, in bytes, as last loaded. It
/// depends on the machine; nothing is claimed of it.
#[verifier::external_body]
fn system_used_swap(s: &sysinfo::System) -> (n: u64) {
    s.used_swap()
}

/// Limits and thresholds of resource scaling.
#[derive(Debug, Clone, Copy, PartialEq, Eq, Structural)]
pub struct ResourceConfig {
    /// The least number of vectors ever allowed.
    pub base_max_vectors: u64,
    /// The least cache size ever allowed (bytes).
    pub base_cache_size_bytes: u64,
    /// The most vectors scaling may allow.
    pub scaling_max_vectors: u64,
    /// The largest cache scaling may allow (bytes).
    pub scaling_max_cache_bytes: u64,
    /// Memory use to aim at (percent of the machine's memory).
    pub target_memory_usage_percent: u8,
    /// Memory use above which limits are cut hard (percent).
    pub critical_memory_usage_percent: u8,
    pub monitoring_interval_ms: u64,
    /// How long after a scaling no other scaling happens.
    pub scaling_cooldown_ms: u64,
}

impl Default for ResourceConfig {
    /// 100 000 vectors and 256 MiB of cache at least, 5 000 000 vectors and 4 GiB at most,
    /// aiming at 60 % memory use with 85 % critical, monitoring every 30 s, scaling at most
    /// every 5 minutes.
    fn default() -> (c: Self)
        ensures
            c == (ResourceConfig {
                base_max_vectors: 100_000,
                base_cache_size_bytes: 268_435_456,
                scaling_max_vectors: 5_000_000,
                scaling_max_cache_bytes: 4_294_967_296,
                target_memory_usage_percent: 60,
                critical_memory_usage_percent: 85,
                monitoring_interval_ms: 30_000,
                scaling_cooldown_ms: 300_000,
            }),
    {
        ResourceConfig {
            base_max_vectors: 100_000,
            base_cache_size_bytes: 256 * 1024 * 1024,
            scaling_max_vectors: 5_000_000,
            scaling_max_cache_bytes: 4 * 1024 * 1024 * 1024,
            target_memory_usage_percent: 60,
            critical_memory_usage_percent: 85,
            monitoring_interval_ms: 30_000,
            scaling_cooldown_ms: 300_000,
        }
    }
}

/// The limits in force.
#[derive(Debug, Clone, Copy, PartialEq, Eq, Structural)]
pub struct CurrentLimits {
    pub max_vectors: u64,
    pub cache_size_bytes: u64,
    /// When the limits last changed (milliseconds).
    pub last_scaled_ms: u64,
    /// Product of the factors applied so far, in thousandths.
    pub scaling_factor: u64,
}

/// What caused a scaling.
#[derive(Debug, Clone, Copy, PartialEq, Eq, Structural)]
pub enum ScalingTrigger {
    MemoryPressure,
    MemoryAvailable,
    UsageGrowth,
    UsageShrink,
    Manual,
}

/// One change of the limits.
#[derive(Debug, Clone, Copy, PartialEq, Eq, Structural)]
pub struct ScalingEvent {
    pub timestamp_ms: u64,
    pub old_limits: CurrentLimits,
    pub new_limits: CurrentLimits,
    pub trigger: ScalingTrigger,
    /// The machine's memory use when it happened, in hundredths of a percent.
    pub system_memory_used: u64,
}

/// How much of its limits the store uses.
#[derive(Debug, Clone, Copy, PartialEq, Eq, Structural)]
pub struct ResourceUsage {
    pub current_vectors: u64,
    pub max_vectors: u64,
    /// `current_vectors` as a share of `max_vectors`, in hundredths of a percent, rounded
    /// down (0 when `max_vectors` is 0).
    pub vector_usage: u64,
    pub current_cache_size: u64,
    pub max_cache_size: u64,
    /// `current_cache_size` as a share of `max_cache_size`, in hundredths of a percent,
    /// rounded down (0 when `max_cache_size` is 0).
    pub cache_usage: u64,
}

/// `part` as a share of `whole` in hundredths of a percent, rounded down and capped at
/// `u64::MAX`; 0 when `whole` is 0.
pub open spec fn share(part: u64, whole: u64) -> u64 {
    if whole == 0 {
        0
    } else if part * 10000 / (whole as int) > u64::MAX {
        u64::MAX
    } else {
        (part * 10000 / (whole as int)) as u64
    }
}

/// `part` as a share of `whole`, as `share` states it.
pub fn share_of(part: u64, whole: u64) -> (s: u64)
    ensures
        s == share(part, whole),
{
    if whole == 0 {
        0
    } else {
        let v: u128 = part as u128 * 10000 / whole as u128;
        if v > u64::MAX as u128 { u64::MAX } else { v as u64 }
    }
}

impl ResourceUsage {
    /// The usage of `current_vectors` of `max_vectors` vectors and `current_cache_size` of
    /// `max_cache_size` cache bytes.
    pub fn new(current_vectors: u64, max_vectors: u64, current_cache_size: u64, max_cache_size: u64) -> (u: Self)
        ensures
            u == (ResourceUsage {
                current_vectors,
                max_vectors,
                vector_usage: share(current_vectors, max_vectors),
                current_cache_size,
                max_cache_size,
                cache_usage: share(current_cache_size, max_cache_size),
            }),
    {
        ResourceUsage {
            current_vectors,
            max_vectors,
            vector_usage: share_of(current_vectors, max_vectors),
            current_cache_size,
            max_cache_size,
            cache_usage: share_of(current_cache_size, max_cache_size),
        }
    }
}

/// Detailed memory figures of the machine (bytes; usage in hundredths of a percent).
#[derive(Debug, Clone, Copy, PartialEq, Eq, Structural)]
pub struct DetailedMemoryInfo {
    pub total_memory_bytes: u64,
    pub used_memory_bytes: u64,
    pub available_memory_bytes: u64,
    pub usage_percent: u64,
    pub swap_total_bytes: u64,
    pub swap_used_bytes: u64,
}

/// The mean of the samples, rounded down (0 with no sample).
pub open spec fn sample_mean(s: Seq<u64>) -> int {
    if s.len() == 0 { 0 } else { sample_sum(s) / s.len() as int }
}

/// The sum of the samples.
pub open spec fn sample_sum(s: Seq<u64>) -> int
    decreases s.len(),
{
    if s.len() == 0 { 0 } else { sample_sum(s.drop_last()) + s.last() }
}

/// The samples kept after adding `x`: the latest five.
pub open spec fn window_after(s: Seq<u64>, x: u64) -> Seq<u64> {
    if s.push(x).len() > 5 { s.push(x).drop_first() } else { s.push(x) }
}

/// Watches the machine's memory use, smoothed over the latest five readings.
pub struct SystemMonitor {
    system: sysinfo::System,
    total_memory_bytes: u64,
    last_check_ms: u64,
    memory_samples: Vec<u64>,
}

impl SystemMonitor {
    /// The latest readings, oldest first.
    pub closed spec fn samples(&self) -> Seq<u64> {
        self.memory_samples@
    }

    pub closed spec fn total_bytes(&self) -> u64 {
        self.total_memory_bytes
    }

    pub closed spec fn last_check(&self) -> u64 {
        self.last_check_ms
    }

    /// At most five readings are kept.
    pub open spec fn wf(&self) -> bool {
        self.samples().len() <= 5
    }

    /// A monitor of this machine, loaded at `now_ms`, with no readings yet.
    pub fn new(now_ms: u64) -> (m: Self)
        ensures
            m.wf(),
            m.samples().len() == 0,
            m.last_check() == now_ms,
    {
        let mut system = system_new_all();
        system_refresh_all(&mut system);
        let total = system_total_memory(&system);
        SystemMonitor { system, total_memory_bytes: total, last_check_ms: now_ms, memory_samples: Vec::new() }
    }

    /// The RAM size in bytes, as read when the monitor was made.
    pub fn total_memory_bytes(&self) -> (n: u64)
        ensures
            n == self.total_bytes(),
    {
        self.total_memory_bytes
    }

    /// Adds the reading `sample` and returns the mean of the latest five readings.
    pub fn record_sample(&mut self, sample: u64) -> (mean: u64)
        requires
            old(self).wf(),
        ensures
            final(self).wf(),
            final(self).samples() == window_after(old(self).samples(), sample),
            mean == sample_mean(final(self).samples()),
            final(self).total_bytes() == old(self).total_bytes(),
            final(self).last_check() == old(self).last_check(),
    {
        let ghost before = self.memory_samples@;
        self.memory_samples.push(sample);
        if self.memory_samples.len() > 5 {
            self.memory_samples.remove(0);
        }
        proof {
            assert(self.memory_samples@ =~= window_after(before, sample));
        }
        let mut sum: u128 = 0;
        let mut i: usize = 0;
        while i < self.memory_samples.len()
            invariant
                i <= self.memory_samples@.len(),
                self.memory_samples@.len() <= 5,
                sum == sample_sum(self.memory_samples@.take(i as int)),
                sum <= i * 0xffff_ffff_ffff_ffff,
            decreases self.memory_samples@.len() - i,
        {
            proof { assert(self.memory_samples@.take(i + 1).drop_last() =~= self.memory_samples@.take(i as int)); }
            sum = sum + self.memory_samples[i] as u128;
            i = i + 1;
        }
        proof { assert(self.memory_samples@.take(self.memory_samples@.len() as int) =~= self.memory_samples@); }
        let n = self.memory_samples.len();
        proof {
            assert(sum / (n as u128) <= u64::MAX) by (nonlinear_arith)
                requires sum <= n * 0xffff_ffff_ffff_ffff, n > 0;
        }
        (sum / n as u128) as u64
    }

    /// The machine's memory use at `now_ms`, in hundredths of a percent, smoothed over the
    /// latest five readings. The figures are reloaded when the last load is more than 5 s old.
    /// The newest reading is the share of the RAM size that the machine reported in use; how
    /// many bytes that was depends on the machine and is not stated.
    pub fn get_memory_usage_percent(&mut self, now_ms: u64) -> (mean: u64)
        requires
            old(self).wf(),
        ensures
            final(self).wf(),
            final(self).samples().len() > 0,
            exists|used: u64| final(self).samples().last() == #[trigger] share(used, old(self).total_bytes()),
            final(self).samples().drop_last() == (if old(self).samples().len() >= 5 {
                old(self).samples().drop_first()
            } else {
                old(self).samples()
            }),
            mean == sample_mean(final(self).samples()),
            final(self).last_check() == (if spec_elapsed(now_ms, old(self).last_check()) > 5000 { now_ms } else { old(self).last_check() }),
            final(self).total_bytes() == old(self).total_bytes(),
    {
        if elapsed_ms(now_ms, self.last_check_ms) > 5000 {
            system_refresh_memory(&mut self.system);
            self.last_check_ms = now_ms;
        }
        let used = system_used_memory(&self.system);
        let sample = share_of(used, self.total_memory_bytes);
        let ghost before = self.memory_samples@;
        let mean = self.record_sample(sample);
        proof {
            let w = window_after(before, sample);
            assert(w.drop_last() =~= (if before.len() >= 5 { before.drop_first() } else { before }));
            assert(self.memory_samples@.last() == share(used, self.total_memory_bytes));
            assert(self.total_memory_bytes == old(self).total_bytes());
            assert(self.samples().last() == share(used, old(self).total_bytes()));
        }
        mean
    }

    /// Detailed memory figures, freshly loaded.
    pub fn get_detailed_memory_info(&mut self) -> (d: DetailedMemoryInfo)
        ensures
            d.total_memory_bytes == old(self).total_bytes(),
            d.usage_percent == share(d.used_memory_bytes, d.total_memory_bytes),
            final(self).samples() == old(self).samples(),
            final(self).total_bytes() == old(self).total_bytes(),
            final(self).last_check() == old(self).last_check(),
    {
        system_refresh_memory(&mut self.system);
        let used = system_used_memory(&self.system);
        DetailedMemoryInfo {
            total_memory_bytes: self.total_memory_bytes,
            used_memory_bytes: used,
            available_memory_bytes: system_available_memory(&self.system),
            usage_percent: share_of(used, self.total_memory_bytes),
            swap_total_bytes: system_total_swap(&self.system),
            swap_used_bytes: system_used_swap(&self.system),
        }
    }
}

/// `v` raised to at least `lo`, then lowered to at most `hi`.
pub open spec fn clamp(v: int, lo: u64, hi: u64) -> u64 {
    let raised: int = if v < lo { lo as int } else { v };
    if raised > hi { hi } else { raised as u64 }
}

fn clamp_exec(v: u128, lo: u64, hi: u64) -> (r: u64)
    ensures
        r == clamp(v as int, lo, hi),
{
    let raised: u128 = if v < lo as u128 { lo as u128 } else { v };
    if raised > hi as u128 { hi } else { raised as u64 }
}

/// `x` scaled by the factor `f` in thousandths, rounded down.
pub open spec fn scaled(x: u64, f: u64) -> int {
    x * f / 1000
}

/// The limits after scaling `current` by the factor `f` (thousandths) at `now_ms`: each
/// limit scaled and kept between its base and its scaling maximum; the factors multiply.
pub open spec fn spec_new_limits(config: ResourceConfig, current: CurrentLimits, f: u64, now_ms: u64) -> CurrentLimits {
    CurrentLimits {
        max_vectors: clamp(scaled(current.max_vectors, f), config.base_max_vectors, config.scaling_max_vectors),
        cache_size_bytes: clamp(scaled(current.cache_size_bytes, f), config.base_cache_size_bytes, config.scaling_max_cache_bytes),
        last_scaled_ms: now_ms,
        scaling_factor: if scaled(current.scaling_factor, f) > u64::MAX { u64::MAX } else { scaled(current.scaling_factor, f) as u64 },
    }
}

/// Whether more than `p` percent of the vector limit is used (exactly, as a fraction; an
/// empty limit counts as exceeded when any vector is stored).
pub open spec fn vectors_over(u: ResourceUsage, p: int) -> bool {
    u.current_vectors * 100 > p * u.max_vectors
}

/// Whether and how the limits should scale, with memory use `mem` (hundredths of a percent):
/// cut by 30 % above the critical level, by 15 % above the target plus 15 points, grow by
/// 30 % under the target minus 10 points when more than 80 % of the vectors are used, and
/// grow by 20 % under the target when more than 90 % are used.
pub open spec fn spec_scaling_need(config: ResourceConfig, mem: u64, u: ResourceUsage, current: CurrentLimits, now_ms: u64) -> Option<(CurrentLimits, ScalingTrigger)> {
    if mem > config.critical_memory_usage_percent * 100 {
        Some((spec_new_limits(config, current, 700, now_ms), ScalingTrigger::MemoryPressure))
    } else if mem > (config.target_memory_usage_percent + 15) * 100 {
        Some((spec_new_limits(config, current, 850, now_ms), ScalingTrigger::MemoryPressure))
    } else if mem < (config.target_memory_usage_percent - 10) * 100 && vectors_over(u, 80) {
        Some((spec_new_limits(config, current, 1300, now_ms), ScalingTrigger::MemoryAvailable))
    } else if vectors_over(u, 90) && mem < config.target_memory_usage_percent * 100 {
        Some((spec_new_limits(config, current, 1200, now_ms), ScalingTrigger::UsageGrowth))
    } else {
        None
    }
}

/// The history after adding an event: the latest hundred events.
pub open spec fn capped(s: Seq<ScalingEvent>) -> Seq<ScalingEvent> {
    if s.len() > 100 { s.skip(s.len() - 100) } else { s }
}

/// The limits set by hand: each kept between its base and its scaling maximum, with the
/// factor of the requested vector limit over the base (unbounded, `u64::MAX`, for a base of
/// zero).
pub open spec fn spec_manual_limits(config: ResourceConfig, max_vectors: u64, cache_size_bytes: u64, now_ms: u64) -> CurrentLimits {
    CurrentLimits {
        max_vectors: clamp(max_vectors as int, config.base_max_vectors, config.scaling_max_vectors),
        cache_size_bytes: clamp(cache_size_bytes as int, config.base_cache_size_bytes, config.scaling_max_cache_bytes),
        last_scaled_ms: now_ms,
        scaling_factor: if config.base_max_vectors == 0 {
            u64::MAX
        } else if max_vectors * 1000 / (config.base_max_vectors as int) > u64::MAX {
            u64::MAX
        } else {
            (max_vectors * 1000 / (config.base_max_vectors as int)) as u64
        },
    }
}

/// Counts of scaling events.
#[derive(Debug, Clone, Copy, PartialEq, Eq, Structural)]
pub struct ScalingStats {
    pub total_scaling_events: usize,
    /// The current product of factors, in thousandths.
    pub current_scaling_factor: u64,
    pub last_scaling_event: Option<ScalingEvent>,
    pub memory_pressure_events: usize,
    /// Events that raised the limits for free memory or for growing use.
    pub growth_events: usize,
}

/// How many events had a trigger that `pick` selects.
pub open spec fn count_events(s: Seq<ScalingEvent>, pick: spec_fn(ScalingTrigger) -> bool) -> nat
    decreases s.len(),
{
    if s.len() == 0 { 0 } else { count_events(s.drop_last(), pick) + if pick(s.last().trigger) { 1nat } else { 0nat } }
}

/// Manages the limits of the memory store.
pub struct ResourceManager {
    config: ResourceConfig,
    current_limits: CurrentLimits,
    system_monitor: SystemMonitor,
    scaling_history: Vec<ScalingEvent>,
}

impl ResourceManager {
    pub closed spec fn cfg(&self) -> ResourceConfig {
        self.config
    }

    pub closed spec fn limits(&self) -> CurrentLimits {
        self.current_limits
    }

    /// The scaling events, oldest first.
    pub closed spec fn events(&self) -> Seq<ScalingEvent> {
        self.scaling_history@
    }

    /// The memory readings of the monitor.
    pub closed spec fn readings(&self) -> Seq<u64> {
        self.system_monitor.samples()
    }

    /// How one update of the limits at `now_ms` for `usage` takes this manager to `after`,
    /// `changed` telling whether the limits changed: a new reading of the machine's memory is
    /// taken (the latest five are kept); unless the limits changed less than the cooldown ago,
    /// they are scaled as `spec_scaling_need` asks for the mean reading, and the scaling is
    /// recorded.
    pub open spec fn limits_update(self, after: Self, usage: ResourceUsage, now_ms: u64, changed: bool) -> bool {
        &&& after.readings().len() > 0
        &&& after.readings().drop_last() == (if self.readings().len() >= 5 {
            self.readings().drop_first()
        } else {
            self.readings()
        })
        &&& after.cfg() == self.cfg()
        &&& ({
            let mem = sample_mean(after.readings()) as u64;
            if spec_elapsed(now_ms, self.limits().last_scaled_ms) < self.cfg().scaling_cooldown_ms {
                !changed && after.limits() == self.limits() && after.events() == self.events()
            } else {
                match spec_scaling_need(self.cfg(), mem, usage, self.limits(), now_ms) {
                    None => !changed && after.limits() == self.limits() && after.events() == self.events(),
                    Some((nl, t)) => changed && after.limits() == nl
                        && after.events() == capped(self.events().push(ScalingEvent {
                            timestamp_ms: now_ms,
                            old_limits: self.limits(),
                            new_limits: nl,
                            trigger: t,
                            system_memory_used: mem,
                        })),
                }
            }
        })
    }

    /// At most a hundred events are kept and the monitor keeps at most five readings.
    pub open spec fn wf(&self) -> bool {
        self.events().len() <= 100 && self.readings().len() <= 5
    }

    /// A manager of this machine with `config`, at its base limits and a factor of one,
    /// started at `now_ms`.
    pub fn new(config: ResourceConfig, now_ms: u64) -> (m: Self)
        ensures
            m.wf(),
            m.cfg() == config,
            m.limits() == (CurrentLimits {
                max_vectors: config.base_max_vectors,
                cache_size_bytes: config.base_cache_size_bytes,
                last_scaled_ms: now_ms,
                scaling_factor: 1000,
            }),
            m.events().len() == 0,
            m.readings().len() == 0,
    {
        let system_monitor = SystemMonitor::new(now_ms);
        ResourceManager {
            config,
            current_limits: CurrentLimits {
                max_vectors: config.base_max_vectors,
                cache_size_bytes: config.base_cache_size_bytes,
                last_scaled_ms: now_ms,
                scaling_factor: 1000,
            },
            system_monitor,
            scaling_history: Vec::new(),
        }
    }

    /// The limits in force.
    pub fn get_current_limits(&self) -> (l: CurrentLimits)
        ensures
            l == self.limits(),
    {
        self.current_limits
    }

    /// Puts `limits` in force as they are, without recording an event.
    pub fn apply_limits(&mut self, limits: CurrentLimits)
        ensures
            final(self).limits() == limits,
            final(self).events() == old(self).events(),
            final(self).readings() == old(self).readings(),
            final(self).cfg() == old(self).cfg(),
    {
        self.current_limits = limits;
    }

    /// The limits after scaling `current` by the factor `f` (thousandths) at `now_ms`. When the
    /// bases do not exceed the maxima, the limits stay between them.
    pub fn calculate_new_limits(&self, current: &CurrentLimits, f: u64, now_ms: u64) -> (l: CurrentLimits)
        ensures
            l == spec_new_limits(self.cfg(), *current, f, now_ms),
            self.cfg().base_max_vectors <= self.cfg().scaling_max_vectors ==>
                self.cfg().base_max_vectors <= l.max_vectors <= self.cfg().scaling_max_vectors,
            self.cfg().base_cache_size_bytes <= self.cfg().scaling_max_cache_bytes ==>
                self.cfg().base_cache_size_bytes <= l.cache_size_bytes <= self.cfg().scaling_max_cache_bytes,
    {
        let c = &self.config;
        proof {
            assert(current.max_vectors * f <= u64::MAX * u64::MAX) by (nonlinear_arith)
                requires current.max_vectors <= u64::MAX, f <= u64::MAX;
            assert(current.cache_size_bytes * f <= u64::MAX * u64::MAX) by (nonlinear_arith)
                requires current.cache_size_bytes <= u64::MAX, f <= u64::MAX;
            assert(current.scaling_factor * f <= u64::MAX * u64::MAX) by (nonlinear_arith)
                requires current.scaling_factor <= u64::MAX, f <= u64::MAX;
        }
        let mv = clamp_exec(current.max_vectors as u128 * f as u128 / 1000, c.base_max_vectors, c.scaling_max_vectors);
        let cs = clamp_exec(current.cache_size_bytes as u128 * f as u128 / 1000, c.base_cache_size_bytes, c.scaling_max_cache_bytes);
        let sf: u128 = current.scaling_factor as u128 * f as u128 / 1000;
        let factor: u64 = if sf > u64::MAX as u128 { u64::MAX } else { sf as u64 };
        CurrentLimits { max_vectors: mv, cache_size_bytes: cs, last_scaled_ms: now_ms, scaling_factor: factor }
    }

    /// Whether and how the limits should scale with memory use `mem` (hundredths of a
    /// percent) and the store's `usage`, from `current`, at `now_ms`.
    pub fn analyze_scaling_need(&self, mem: u64, usage: &ResourceUsage, current: &CurrentLimits, now_ms: u64) -> (r: Option<(CurrentLimits, ScalingTrigger)>)
        ensures
            r == spec_scaling_need(self.cfg(), mem, *usage, *current, now_ms),
    {
        let c = &self.config;
        let target = c.target_memory_usage_percent as u64;
        let over80 = usage.current_vectors as u128 * 100 > 80 * usage.max_vectors as u128;
        let over90 = usage.current_vectors as u128 * 100 > 90 * usage.max_vectors as u128;
        if mem > c.critical_memory_usage_percent as u64 * 100 {
            Some((self.calculate_new_limits(current, 700, now_ms), ScalingTrigger::MemoryPressure))
        } else if mem > (target + 15) * 100 {
            Some((self.calculate_new_limits(current, 850, now_ms), ScalingTrigger::MemoryPressure))
        } else if target >= 10 && mem < (target - 10) * 100 && over80 {
            Some((self.calculate_new_limits(current, 1300, now_ms), ScalingTrigger::MemoryAvailable))
        } else if over90 && mem < target * 100 {
            Some((self.calculate_new_limits(current, 1200, now_ms), ScalingTrigger::UsageGrowth))
        } else {
            None
        }
    }

    /// Puts `new_limits` in force and records the change at `now_ms` with memory use
    /// `memory_used`, keeping the latest hundred events.
    fn apply_scaling(&mut self, old_limits: CurrentLimits, new_limits: CurrentLimits, trigger: ScalingTrigger, memory_used: u64, now_ms: u64)
        requires
            old(self).wf(),
        ensures
            final(self).wf(),
            final(self).limits() == new_limits,
            final(self).events() == capped(old(self).events().push(ScalingEvent {
                timestamp_ms: now_ms,
                old_limits,
                new_limits,
                trigger,
                system_memory_used: memory_used,
            })),
            final(self).cfg() == old(self).cfg(),
            final(self).readings() == old(self).readings(),
    {
        let event = ScalingEvent { timestamp_ms: now_ms, old_limits, new_limits, trigger, system_memory_used: memory_used };
        self.current_limits = new_limits;
        let ghost pushed = self.scaling_history@.push(event);
        self.scaling_history.push(event);
        if self.scaling_history.len() > 100 {
            self.scaling_history.remove(0);
            proof { assert(self.scaling_history@ =~= pushed.skip(pushed.len() - 100)); }
        }
    }

    /// Reads the machine's memory use at `now_ms` and, unless the limits changed less than
    /// the cooldown ago, scales them as the reading and `usage` call for. Returns whether the
    /// limits changed. The reading is the mean of the monitor's latest readings.
    pub fn update_limits_if_needed(&mut self, usage: &ResourceUsage, now_ms: u64) -> (changed: bool)
        requires
            old(self).wf(),
        ensures
            final(self).wf(),
            old(self).limits_update(*final(self), *usage, now_ms, changed),
    {
        let mem = self.system_monitor.get_memory_usage_percent(now_ms);
        let current = self.current_limits;
        if elapsed_ms(now_ms, current.last_scaled_ms) < self.config.scaling_cooldown_ms {
            return false;
        }
        match self.analyze_scaling_need(mem, usage, &current, now_ms) {
            Some((new_limits, trigger)) => {
                self.apply_scaling(current, new_limits, trigger, mem, now_ms);
                true
            },
            None => false,
        }
    }

    /// Sets the limits by hand at `now_ms`: each kept between its base and its scaling
    /// maximum, recorded as a manual scaling with the machine's memory use read now.
    pub fn set_limits_manual(&mut self, max_vectors: u64, cache_size_bytes: u64, now_ms: u64)
        requires
            old(self).wf(),
        ensures
            final(self).wf(),
            final(self).limits() == spec_manual_limits(old(self).cfg(), max_vectors, cache_size_bytes, now_ms),
            final(self).events() == capped(old(self).events().push(ScalingEvent {
                timestamp_ms: now_ms,
                old_limits: old(self).limits(),
                new_limits: spec_manual_limits(old(self).cfg(), max_vectors, cache_size_bytes, now_ms),
                trigger: ScalingTrigger::Manual,
                system_memory_used: sample_mean(final(self).readings()) as u64,
            })),
            final(self).cfg() == old(self).cfg(),
    {
        let c = self.config;
        let old_limits = self.current_limits;
        let factor: u64 = if c.base_max_vectors == 0 {
            u64::MAX
        } else {
            let v: u128 = max_vectors as u128 * 1000 / c.base_max_vectors as u128;
            if v > u64::MAX as u128 { u64::MAX } else { v as u64 }
        };
        let new_limits = CurrentLimits {
            max_vectors: clamp_exec(max_vectors as u128, c.base_max_vectors, c.scaling_max_vectors),
            cache_size_bytes: clamp_exec(cache_size_bytes as u128, c.base_cache_size_bytes, c.scaling_max_cache_bytes),
            last_scaled_ms: now_ms,
            scaling_factor: factor,
        };
        let mem = self.system_monitor.get_memory_usage_percent(now_ms);
        self.apply_scaling(old_limits, new_limits, ScalingTrigger::Manual, mem, now_ms);
    }

    /// The store's usage as estimated from the limits: 50 000 vectors stored and half of the
    /// cache in use.
    pub open spec fn current_usage_spec(&self) -> ResourceUsage {
        ResourceUsage {
            current_vectors: 50_000,
            max_vectors: self.limits().max_vectors,
            vector_usage: share(50_000, self.limits().max_vectors),
            current_cache_size: self.limits().cache_size_bytes / 2,
            max_cache_size: self.limits().cache_size_bytes,
            cache_usage: share(self.limits().cache_size_bytes / 2, self.limits().cache_size_bytes),
        }
    }

    /// The store's usage as estimated from the limits: 50 000 vectors stored and half of the
    /// cache in use.
    pub fn current_usage(&self) -> (u: ResourceUsage)
        ensures
            u == self.current_usage_spec(),
    {
        let l = &self.current_limits;
        ResourceUsage::new(50_000, l.max_vectors, l.cache_size_bytes / 2, l.cache_size_bytes)
    }

    /// Whether the machine's memory use, read at `now_ms`, is above the critical level.
    pub fn is_memory_pressure(&mut self, now_ms: u64) -> (r: bool)
        requires
            old(self).wf(),
        ensures
            final(self).wf(),
            r == (sample_mean(final(self).readings()) > old(self).cfg().critical_memory_usage_percent * 100),
            final(self).readings().len() > 0,
            final(self).limits() == old(self).limits(),
            final(self).events() == old(self).events(),
            final(self).cfg() == old(self).cfg(),
    {
        let mem = self.system_monitor.get_memory_usage_percent(now_ms);
        mem > self.config.critical_memory_usage_percent as u64 * 100
    }

    /// Adapts the limits at `now_ms` to the estimated usage (see `update_limits_if_needed`).
    pub fn adapt_limits(&mut self, now_ms: u64) -> (changed: bool)
        requires
            old(self).wf(),
        ensures
            final(self).wf(),
            old(self).limits_update(*final(self), old(self).current_usage_spec(), now_ms, changed),
    {
        let usage = self.current_usage();
        self.update_limits_if_needed(&usage, now_ms)
    }

    /// Counts of the scaling events kept.
    pub fn get_scaling_stats(&self) -> (s: ScalingStats)
        ensures
            s.total_scaling_events == self.events().len(),
            s.current_scaling_factor == self.limits().scaling_factor,
            s.last_scaling_event == (if self.events().len() == 0 { None } else { Some(self.events().last()) }),
            s.memory_pressure_events == count_events(self.events(), |t: ScalingTrigger| t == ScalingTrigger::MemoryPressure),
            s.growth_events == count_events(self.events(), |t: ScalingTrigger| t == ScalingTrigger::MemoryAvailable || t == ScalingTrigger::UsageGrowth),
    {
        let h = &self.scaling_history;
        let mut pressure: usize = 0;
        let mut growth: usize = 0;
        let mut i: usize = 0;
        while i < h.len()
            invariant
                i <= h@.len(),
                pressure == count_events(h@.take(i as int), |t: ScalingTrigger| t == ScalingTrigger::MemoryPressure),
                growth == count_events(h@.take(i as int), |t: ScalingTrigger| t == ScalingTrigger::MemoryAvailable || t == ScalingTrigger::UsageGrowth),
                pressure <= i,
                growth <= i,
            decreases h@.len() - i,
        {
            proof { assert(h@.take(i + 1).drop_last() =~= h@.take(i as int)); }
            match h[i].trigger {
                ScalingTrigger::MemoryPressure => { pressure = pressure + 1; },
                ScalingTrigger::MemoryAvailable => { growth = growth + 1; },
                ScalingTrigger::UsageGrowth => { growth = growth + 1; },
                _ => {},
            }
            i = i + 1;
        }
        proof { assert(h@.take(h@.len() as int) =~= h@); }
        let n = h.len();
        ScalingStats {
            total_scaling_events: n,
            current_scaling_factor: self.current_limits.scaling_factor,
            last_scaling_event: if n == 0 { None } else { Some(h[n - 1]) },
            memory_pressure_events: pressure,
            growth_events: growth,
        }
    }
}


/// Under memory pressure (use above the target plus 15 points) the decision is always a
/// memory-pressure event that lowers the limits: each new limit is at most 85 % of the current
/// one, unless it is held at its base.
pub proof fn lemma_memory_pressure_lowers_limits(config: ResourceConfig, mem: u64, u: ResourceUsage, current: CurrentLimits, now_ms: u64)
    requires
        mem > (config.target_memory_usage_percent + 15) * 100,
    ensures
        spec_scaling_need(config, mem, u, current, now_ms) matches Some((l, trigger)) && {
            &&& trigger == ScalingTrigger::MemoryPressure
            &&& (l.max_vectors <= config.base_max_vectors || l.max_vectors * 1000 <= current.max_vectors * 850)
            &&& (l.cache_size_bytes <= config.base_cache_size_bytes || l.cache_size_bytes * 1000 <= current.cache_size_bytes * 850)
            &&& l.last_scaled_ms == now_ms
        },
{
    let f: u64 = if mem > config.critical_memory_usage_percent * 100 { 700 } else { 850 };
    assert(current.max_vectors * f / 1000 * 1000 <= current.max_vectors * 850) by (nonlinear_arith)
        requires f <= 850;
    assert(current.cache_size_bytes * f / 1000 * 1000 <= current.cache_size_bytes * 850) by (nonlinear_arith)
        requires f <= 850;
}

} // verus!
