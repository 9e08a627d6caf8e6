use memory::orchestration::resource_controller::{
    autoscale_decision, calculate_trend, format_elapsed, monitoring_alerts, ResourceAlertType, ScalingConfig, Trend,
};
use memory::resource_manager::{share_of, CurrentLimits, ResourceConfig, ResourceManager, ResourceUsage, ScalingTrigger};

#[test]
fn test_resource_manager_creation() {
    let config = ResourceConfig::default();
    let manager = ResourceManager::new(config, 0);
    let limits = manager.get_current_limits();
    assert_eq!(limits.max_vectors, 100_000);
    assert!(limits.cache_size_bytes > 0);
}

#[test]
fn test_scaling_calculation() {
    let config = ResourceConfig::default();
    let manager = ResourceManager::new(config, 0);
    let current = CurrentLimits {
        max_vectors: 100_000,
        cache_size_bytes: 256 * 1024 * 1024,
        last_scaled_ms: 0,
        scaling_factor: 1000,
    };
    let scaled = manager.calculate_new_limits(&current, 1500, 5);
    assert_eq!(scaled.max_vectors, 150_000);
    assert_eq!(scaled.cache_size_bytes, 384 * 1024 * 1024);
    assert_eq!(scaled.scaling_factor, 1500);
    assert_eq!(scaled.last_scaled_ms, 5);
}

#[test]
fn scaling_stays_between_base_and_maximum() {
    let manager = ResourceManager::new(ResourceConfig::default(), 0);
    let base = manager.get_current_limits();
    let down = manager.calculate_new_limits(&base, 700, 1);
    assert_eq!(down.max_vectors, 100_000);
    assert_eq!(down.cache_size_bytes, 268_435_456);
    let huge = CurrentLimits { max_vectors: 4_900_000, cache_size_bytes: 4_000_000_000, last_scaled_ms: 0, scaling_factor: 1000 };
    let up = manager.calculate_new_limits(&huge, 1300, 1);
    assert_eq!(up.max_vectors, 5_000_000);
    assert_eq!(up.cache_size_bytes, 4_294_967_296);
}

#[test]
fn scaling_need_follows_memory_pressure() {
    let manager = ResourceManager::new(ResourceConfig::default(), 0);
    let current = manager.get_current_limits();
    let usage = ResourceUsage::new(50_000, 100_000, 10, 100);
    let (l, t) = manager.analyze_scaling_need(9_000, &usage, &current, 7).unwrap();
    assert_eq!(t, ScalingTrigger::MemoryPressure);
    assert_eq!(l.max_vectors, 100_000);
    let busy = ResourceUsage::new(85_000, 100_000, 10, 100);
    let (l, t) = manager.analyze_scaling_need(4_000, &busy, &current, 7).unwrap();
    assert_eq!(t, ScalingTrigger::MemoryAvailable);
    assert_eq!(l.max_vectors, 130_000);
    let full = ResourceUsage::new(95_000, 100_000, 10, 100);
    let (l, t) = manager.analyze_scaling_need(5_500, &full, &current, 7).unwrap();
    assert_eq!(t, ScalingTrigger::UsageGrowth);
    assert_eq!(l.max_vectors, 120_000);
    assert_eq!(manager.analyze_scaling_need(6_000, &usage, &current, 7), None);
}

#[test]
fn manual_limits_are_clamped_and_recorded() {
    let mut manager = ResourceManager::new(ResourceConfig::default(), 0);
    manager.set_limits_manual(200_000, 1, 50);
    let l = manager.get_current_limits();
    assert_eq!(l.max_vectors, 200_000);
    assert_eq!(l.cache_size_bytes, 268_435_456);
    assert_eq!(l.scaling_factor, 2000);
    assert_eq!(manager.get_scaling_stats().total_scaling_events, 1);
}

#[test]
fn usage_shares_are_in_hundredths_of_a_percent() {
    assert_eq!(share_of(1, 3), 3333);
    assert_eq!(share_of(5, 0), 0);
    let u = ResourceUsage::new(50, 200, 3, 4);
    assert_eq!(u.vector_usage, 2500);
    assert_eq!(u.cache_usage, 7500);
}

#[test]
fn elapsed_times_are_shown_in_one_unit() {
    assert_eq!(format_elapsed(42), "42s");
    assert_eq!(format_elapsed(125), "2m");
    assert_eq!(format_elapsed(7_300), "2h");
}

#[test]
fn monitoring_raises_memory_and_vector_alerts() {
    let u = ResourceUsage::new(95, 100, 91, 100);
    let alerts = monitoring_alerts(&u);
    assert_eq!(alerts.len(), 2);
    assert_eq!(alerts[0].0, ResourceAlertType::MemoryPressure);
    assert_eq!(alerts[0].1, "Критическое использование памяти: 91.0%");
    assert_eq!(alerts[1].0, ResourceAlertType::VectorLimitApproached);
    assert_eq!(alerts[1].1, "Приближение к лимиту векторов: 95/100 (95.0%)");
    let calm = ResourceUsage::new(10, 100, 86, 100);
    let alerts = monitoring_alerts(&calm);
    assert_eq!(alerts.len(), 1);
    assert_eq!(alerts[0].1, "Высокое использование памяти: 86.0%");
    assert!(monitoring_alerts(&ResourceUsage::new(1, 100, 1, 100)).is_empty());
}

#[test]
fn autoscaling_grows_and_shrinks() {
    let limits = CurrentLimits { max_vectors: 1000, cache_size_bytes: 1000, last_scaled_ms: 3, scaling_factor: 1000 };
    let hot = ResourceUsage::new(900, 1000, 900, 1000);
    let up = autoscale_decision(&ScalingConfig::standard(), &hot, &limits).unwrap();
    assert_eq!(up.cache_size_bytes, 1200);
    assert_eq!(up.max_vectors, 1300);
    let up = autoscale_decision(&ScalingConfig::production(), &hot, &limits).unwrap();
    assert_eq!(up.cache_size_bytes, 1500);
    assert_eq!(up.max_vectors, 1400);
    let cold = ResourceUsage::new(100, 1000, 100, 1000);
    let down = autoscale_decision(&ScalingConfig::standard(), &cold, &limits).unwrap();
    assert_eq!(down.cache_size_bytes, 900);
    assert_eq!(down.max_vectors, 850);
    let mid = ResourceUsage::new(500, 1000, 500, 1000);
    assert_eq!(autoscale_decision(&ScalingConfig::standard(), &mid, &limits), None);
}

#[test]
fn trend_is_the_least_squares_slope() {
    assert_eq!(calculate_trend(&vec![1, 2, 3]), Trend { numerator: 6, denominator: 6 });
    assert_eq!(calculate_trend(&vec![5]), Trend { numerator: 0, denominator: 1 });
    let t = calculate_trend(&vec![10, 8, 6, 4]);
    assert_eq!(t.numerator * 1, -2 * t.denominator);
    // Use rising from 10 to 100 percent over ten snapshots: the trend is 10 points a snapshot.
    let rising = calculate_trend(&vec![1000, 2000, 3000, 4000, 5000, 6000, 7000, 8000, 9000, 10000]);
    assert!(rising.numerator > 0 && rising.denominator > 0);
    assert_eq!(rising.numerator, 1000 * rising.denominator);
}
