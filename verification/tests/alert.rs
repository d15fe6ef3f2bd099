use mcpanel::clock::now_millis_unsigned;
use mcpanel::monitor::alert::{
    evaluate_condition, AlertCondition, AlertError, AlertManager, AlertRule, LogicalOperator, ThresholdConfig,
};
use mcpanel::monitor::types::{AlertLevel, AlertThreshold, MetricType, ThresholdOperator};

fn near(a: u64, b: u64) -> bool {
    (f64::from_bits(a) - f64::from_bits(b)).abs() < f64::EPSILON
}

fn render(b: u64, fixed: bool) -> String {
    let x = f64::from_bits(b);
    if fixed {
        format!("{:.2}", x)
    } else {
        format!("{}", x)
    }
}

fn threshold(id: &str, name: &str, metric: MetricType, value: f64, level: AlertLevel, cooldown: u64) -> AlertThreshold {
    AlertThreshold {
        id: id.to_string(),
        name: name.to_string(),
        metric_type: metric,
        operator: ThresholdOperator::GreaterThan,
        threshold_value_bits: value.to_bits(),
        alert_level: level,
        enabled: true,
        cooldown_seconds: cooldown,
        created_at: now_millis_unsigned(),
    }
}

fn cond(a: f64, op: ThresholdOperator, b: f64) -> bool {
    evaluate_condition(a.to_bits(), op, b.to_bits(), near(a.to_bits(), b.to_bits()))
}

#[test]
fn test_alert_manager_creation() {
    let manager = AlertManager::with_default();
    assert_eq!(manager.max_history_size(), 1000);
}

#[test]
fn test_add_and_get_threshold() {
    let mut manager = AlertManager::with_default();
    let t = threshold("test", "Test Threshold", MetricType::CpuUsage, 90.0, AlertLevel::Warning, 60);
    manager.add_threshold(t).unwrap();
    let retrieved = manager.get_threshold("test").unwrap();
    assert_eq!(retrieved.name, "Test Threshold");
}

#[test]
fn test_evaluate_condition() {
    assert!(cond(95.0, ThresholdOperator::GreaterThan, 90.0));
    assert!(cond(50.0, ThresholdOperator::LessThan, 80.0));
    assert!(cond(90.0, ThresholdOperator::GreaterThanOrEqual, 90.0));
    assert!(cond(100.0, ThresholdOperator::LessThanOrEqual, 100.0));
    assert!(cond(50.0, ThresholdOperator::Equal, 50.0));
}

#[test]
fn test_check_threshold() {
    let mut manager = AlertManager::with_default();
    manager.add_threshold(threshold("cpu", "CPU Alert", MetricType::CpuUsage, 90.0, AlertLevel::Warning, 60)).unwrap();
    let alert = manager.check_threshold(MetricType::CpuUsage, 95.0f64.to_bits(), &near, &render);
    assert!(alert.is_some());
    assert_eq!(alert.unwrap().level, AlertLevel::Warning);
}

#[test]
fn test_no_alert_when_below_threshold() {
    let mut manager = AlertManager::with_default();
    manager.add_threshold(threshold("cpu", "CPU Alert", MetricType::CpuUsage, 90.0, AlertLevel::Warning, 60)).unwrap();
    let alert = manager.check_threshold(MetricType::CpuUsage, 50.0f64.to_bits(), &near, &render);
    assert!(alert.is_none());
}

#[test]
fn test_cooldown() {
    let mut manager = AlertManager::with_default();
    manager.add_threshold(threshold("cpu", "CPU Alert", MetricType::CpuUsage, 90.0, AlertLevel::Warning, 3600)).unwrap();
    let alert1 = manager.check_threshold(MetricType::CpuUsage, 95.0f64.to_bits(), &near, &render);
    assert!(alert1.is_some());
    let alert2 = manager.check_threshold(MetricType::CpuUsage, 95.0f64.to_bits(), &near, &render);
    assert!(alert2.is_none());
}

#[test]
fn test_acknowledge_alert() {
    let mut manager = AlertManager::with_default();
    manager.add_threshold(threshold("cpu", "CPU Alert", MetricType::CpuUsage, 90.0, AlertLevel::Warning, 60)).unwrap();
    let alert = manager.check_threshold(MetricType::CpuUsage, 95.0f64.to_bits(), &near, &render).unwrap();
    let id = alert.id.clone();
    manager.record_alert(alert);
    let acknowledged = manager.acknowledge_alert(&id, "admin");
    assert!(acknowledged.is_ok());
    assert!(acknowledged.unwrap().acknowledged);
}

#[test]
fn test_check_all_thresholds() {
    let mut manager = AlertManager::with_default();
    manager.add_threshold(threshold("cpu", "CPU Alert", MetricType::CpuUsage, 90.0, AlertLevel::Warning, 60)).unwrap();
    manager
        .add_threshold(threshold("memory", "Memory Alert", MetricType::MemoryPercent, 80.0, AlertLevel::Critical, 60))
        .unwrap();
    let metrics = vec![(MetricType::CpuUsage, 95.0f64.to_bits()), (MetricType::MemoryPercent, 85.0f64.to_bits())];
    let alerts = manager.check_all_thresholds(&metrics, &near, &render);
    assert_eq!(alerts.len(), 2);
}

#[test]
fn test_create_default_thresholds() {
    let mut manager = AlertManager::with_default();
    manager.create_default_thresholds();
    let thresholds = manager.get_all_thresholds();
    assert!(thresholds.len() >= 4);
}

#[test]
fn alert_message_and_fields() {
    let mut manager = AlertManager::with_default();
    manager.add_threshold(threshold("cpu", "CPU Alert", MetricType::CpuUsage, 90.0, AlertLevel::Critical, 60)).unwrap();
    let a = manager.check_threshold_at(MetricType::CpuUsage, 95.5f64.to_bits(), &near, &render, 5_000).unwrap();
    assert_eq!(a.message, "CPU Alert exceeded 90 (current: 95.50, threshold: 90.00)");
    assert_eq!(a.metric_type, "cpu_usage");
    assert_eq!(a.level, AlertLevel::Critical);
    assert_eq!(a.value_bits, 95.5f64.to_bits());
    assert_eq!(a.threshold_bits, 90.0f64.to_bits());
    assert_eq!(a.timestamp, 5_000);
    assert!(!a.acknowledged);
    assert_eq!(a.id.len(), 36);
}

#[test]
fn alert_cooldown_expires() {
    let mut manager = AlertManager::with_default();
    manager.add_threshold(threshold("cpu", "CPU Alert", MetricType::CpuUsage, 90.0, AlertLevel::Warning, 60)).unwrap();
    let v = 95.0f64.to_bits();
    assert!(manager.check_threshold_at(MetricType::CpuUsage, v, &near, &render, 1_000_000).is_some());
    assert!(manager.check_threshold_at(MetricType::CpuUsage, v, &near, &render, 1_059_999).is_none());
    assert!(manager.check_threshold_at(MetricType::CpuUsage, v, &near, &render, 1_060_000).is_some());
    // A clock that went back keeps the threshold quiet.
    assert!(manager.check_threshold_at(MetricType::CpuUsage, v, &near, &render, 1_000).is_none());
    // Another metric is not affected.
    assert!(manager.check_threshold_at(MetricType::MemoryPercent, v, &near, &render, 1_060_001).is_none());
}

#[test]
fn alert_disabled_threshold_and_errors() {
    let mut manager = AlertManager::with_default();
    manager.add_threshold(threshold("cpu", "CPU Alert", MetricType::CpuUsage, 90.0, AlertLevel::Warning, 0)).unwrap();
    manager.disable_threshold("cpu").unwrap();
    assert!(!manager.get_threshold("cpu").unwrap().enabled);
    assert!(manager.check_threshold_at(MetricType::CpuUsage, 99.0f64.to_bits(), &near, &render, 10).is_none());
    manager.enable_threshold("cpu").unwrap();
    assert!(manager.check_threshold_at(MetricType::CpuUsage, 99.0f64.to_bits(), &near, &render, 10).is_some());
    match manager.enable_threshold("nope") {
        Err(AlertError::ThresholdNotFound(x)) => assert_eq!(x, "nope"),
        _ => panic!("unknown threshold"),
    }
    match manager.update_threshold(threshold("nope", "x", MetricType::Tps, 1.0, AlertLevel::Info, 1)) {
        Err(AlertError::ThresholdNotFound(x)) => assert_eq!(x, "nope"),
        _ => panic!("unknown threshold"),
    }
    assert!(manager.update_threshold(threshold("cpu", "Renamed", MetricType::CpuUsage, 90.0, AlertLevel::Info, 1)).is_ok());
    assert_eq!(manager.get_threshold("cpu").unwrap().name, "Renamed");
    assert_eq!(manager.remove_threshold("cpu").unwrap().name, "Renamed");
    assert!(matches!(manager.remove_threshold("cpu"), Err(AlertError::ThresholdNotFound(_))));
    match manager.acknowledge_alert("missing", "me") {
        Err(AlertError::AlertNotFound(x)) => assert_eq!(x, "missing"),
        _ => panic!("unknown alert"),
    }
}

#[test]
fn alert_equal_operator_uses_epsilon() {
    assert!(cond(0.1 + 0.2, ThresholdOperator::Equal, 0.3));
    assert!(!cond(1.0, ThresholdOperator::Equal, 1.0 + 1e-9));
    assert!(!cond(f64::NAN, ThresholdOperator::GreaterThan, 1.0));
    assert!(!cond(1.0, ThresholdOperator::LessThanOrEqual, f64::NAN));
    assert!(cond(-0.0, ThresholdOperator::GreaterThanOrEqual, 0.0));
    assert!(cond(-5.0, ThresholdOperator::LessThan, -4.0));
    assert!(cond(f64::INFINITY, ThresholdOperator::GreaterThan, f64::MAX));
}

#[test]
fn alert_history_queries() {
    let mut manager = AlertManager::new(2);
    let mut t = threshold("cpu", "CPU", MetricType::CpuUsage, 1.0, AlertLevel::Warning, 0);
    t.operator = ThresholdOperator::GreaterThanOrEqual;
    manager.add_threshold(t).unwrap();
    manager.add_threshold(threshold("mem", "MEM", MetricType::MemoryPercent, 1.0, AlertLevel::Critical, 0)).unwrap();
    let a1 = manager.check_threshold_at(MetricType::CpuUsage, 2.0f64.to_bits(), &near, &render, 1).unwrap();
    let a2 = manager.check_threshold_at(MetricType::MemoryPercent, 2.0f64.to_bits(), &near, &render, 2).unwrap();
    let a3 = manager.check_threshold_at(MetricType::CpuUsage, 1.0f64.to_bits(), &near, &render, 3).unwrap();
    let id2 = a2.id.clone();
    let id3 = a3.id.clone();
    manager.record_alert(a1);
    manager.record_alert(a2);
    manager.record_alert(a3);
    let h = manager.get_alert_history(10);
    assert_eq!(h.len(), 2);
    assert_eq!(h[0].id, id3);
    assert_eq!(h[1].id, id2);
    assert_eq!(manager.get_alerts_by_level(AlertLevel::Critical).len(), 1);
    assert_eq!(manager.get_alerts_by_metric("cpu_usage").len(), 1);
    assert_eq!(manager.get_active_alerts().len(), 2);
    let acked = manager.acknowledge_alert_at(&id2, "ops", 7).unwrap();
    assert_eq!(acked.acknowledged_by.as_deref(), Some("ops"));
    assert_eq!(acked.acknowledged_at, Some(7));
    assert_eq!(manager.get_active_alerts().len(), 1);
    manager.clear_alert_history();
    assert!(manager.get_alert_history(10).is_empty());
}

fn rule(op: Option<LogicalOperator>, enabled: bool) -> AlertRule {
    AlertRule {
        id: "r".to_string(),
        name: "rule".to_string(),
        metric_type: MetricType::CpuUsage,
        conditions: vec![
            AlertCondition {
                metric_type: MetricType::CpuUsage,
                operator: ThresholdOperator::GreaterThan,
                threshold_bits: 80.0f64.to_bits(),
                logical_operator: op,
            },
            AlertCondition {
                metric_type: MetricType::MemoryPercent,
                operator: ThresholdOperator::GreaterThan,
                threshold_bits: 90.0f64.to_bits(),
                logical_operator: None,
            },
        ],
        alert_level: AlertLevel::Warning,
        enabled,
        cooldown_seconds: 60,
        created_at: 0,
        updated_at: 0,
    }
}

#[test]
fn alert_rules_combine_conditions() {
    let mut manager = AlertManager::with_default();
    let metrics = vec![(MetricType::CpuUsage, 85.0f64.to_bits()), (MetricType::MemoryPercent, 50.0f64.to_bits())];
    assert!(!manager.evaluate_rule(&rule(Some(LogicalOperator::And), true), &metrics, &near));
    assert!(!manager.evaluate_rule(&rule(None, true), &metrics, &near));
    assert!(manager.evaluate_rule(&rule(Some(LogicalOperator::Or), true), &metrics, &near));
    assert!(!manager.evaluate_rule(&rule(Some(LogicalOperator::Or), false), &metrics, &near));
    let only_cpu = vec![(MetricType::CpuUsage, 85.0f64.to_bits())];
    assert!(manager.evaluate_rule(&rule(Some(LogicalOperator::Or), true), &only_cpu, &near));
    assert!(!manager.evaluate_rule(&rule(Some(LogicalOperator::And), true), &only_cpu, &near));
    manager.add_rule(rule(None, true));
    assert_eq!(manager.get_all_rules().len(), 1);
    assert!(manager.remove_rule("r").is_some());
    assert!(manager.remove_rule("r").is_none());
}

#[test]
fn alert_threshold_config_defaults() {
    let c = ThresholdConfig::new(
        "c".to_string(),
        MetricType::Tps,
        ThresholdOperator::LessThan,
        15.0f64.to_bits(),
        AlertLevel::Warning,
    );
    assert!(c.enabled);
    assert_eq!(c.cooldown_seconds, 300);
    assert_eq!(c.duration_seconds, 0);
    assert!(!c.notify_once);
    assert_eq!(c.id.len(), 36);
}

#[test]
fn alert_default_thresholds_values() {
    let mut manager = AlertManager::with_default();
    manager.create_default_thresholds_at(9);
    let t = manager.get_threshold("memory_critical").unwrap();
    assert_eq!(f64::from_bits(t.threshold_value_bits), 95.0);
    assert_eq!(t.cooldown_seconds, 60);
    assert_eq!(t.alert_level, AlertLevel::Critical);
    let w = manager.get_threshold("cpu_warning").unwrap();
    assert_eq!(f64::from_bits(w.threshold_value_bits), 80.0);
    assert_eq!(w.created_at, 9);
}
