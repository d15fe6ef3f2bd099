use mcpanel::monitor::types::{Alert, AlertLevel, MetricType};

#[test]
fn level_and_metric_names() {
    assert_eq!(AlertLevel::Critical.to_string(), "critical");
    assert_eq!(AlertLevel::Info.to_string(), "info");
    assert_eq!(MetricType::CpuUsage.as_str(), "cpu_usage");
    assert_eq!(MetricType::PlayerCount.as_str(), "player_count");
}

#[test]
fn new_alert_is_unacknowledged_and_copies_keep_fields() {
    let a = Alert::new("a1".to_string(), AlertLevel::Warning, "tps".to_string(), "low".to_string(), 15.0f64.to_bits(), 18.0f64.to_bits());
    assert!(!a.acknowledged);
    assert!(a.acknowledged_by.is_none());
    assert_eq!(f64::from_bits(a.value_bits), 15.0);
    let b = a.duplicate();
    assert_eq!(b.id, "a1");
    assert_eq!(b.timestamp, a.timestamp);
    assert_eq!(b.threshold_bits, a.threshold_bits);
}
