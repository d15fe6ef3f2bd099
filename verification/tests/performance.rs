use mcpanel::plugins::performance::{PerformanceAnalyzer, PerformanceMetrics};

fn sample(plugin: &str, t: u64, memory: f64) -> PerformanceMetrics {
    PerformanceMetrics {
        plugin_id: plugin.to_string(),
        timestamp: t,
        memory_mb_bits: memory.to_bits(),
        cpu_percent_bits: 1.0f64.to_bits(),
        tick_time_ms_bits: 0.5f64.to_bits(),
        commands_count: 2,
        events_count: 3,
    }
}

#[test]
fn samples_are_bounded_per_plugin() {
    let mut a = PerformanceAnalyzer::new();
    for t in 0..1005u64 {
        a.record_metrics(sample("vault", t, 1.0));
    }
    a.record_metrics(sample("other", 0, 2.0));
    let v = a.metrics_of("vault");
    assert_eq!(v.len(), 1000);
    assert_eq!(v[0].timestamp, 5);
    assert_eq!(v[999].timestamp, 1004);
    assert_eq!(a.metrics_of("other").len(), 1);
    assert!(a.metrics_of("none").is_empty());
    a.clear_history("vault");
    assert!(a.metrics_of("vault").is_empty());
}

#[test]
fn baselines_and_latest() {
    let mut a = PerformanceAnalyzer::new();
    assert!(a.baseline_of("vault").is_none());
    a.set_baseline("vault", sample("vault", 1, 64.0));
    assert_eq!(f64::from_bits(a.baseline_of("vault").unwrap().memory_mb_bits), 64.0);
    a.record_metrics(sample("vault", 1, 10.0));
    a.record_metrics(sample("vault", 2, 20.0));
    let latest = a.latest_samples();
    assert_eq!(latest.len(), 1);
    assert_eq!(latest[0].0, "vault");
    assert_eq!(latest[0].1.timestamp, 2);
}
