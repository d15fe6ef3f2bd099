use mcpanel::clock::now_millis_unsigned;
use mcpanel::monitor::silence::{
    EscalationManager, EscalationStatus, SilenceManager, SilenceMatchConditions, SilenceRule, HOUR_MS,
};
use mcpanel::monitor::types::{Alert, AlertLevel};

fn alert(id: &str, level: AlertLevel, message: &str, value: f64, threshold: f64) -> Alert {
    Alert::new(
        id.to_string(),
        level,
        "cpu_usage".to_string(),
        message.to_string(),
        value.to_bits(),
        threshold.to_bits(),
    )
}

#[test]
fn test_silence_manager_creation() {
    let manager = SilenceManager::with_default();
    assert_eq!(manager.max_history_size(), 1000);
}

#[test]
fn test_add_and_get_rule() {
    let mut manager = SilenceManager::with_default();
    let rule = manager.create_maintenance_window("Test", "Test maintenance", 1, "admin");

    let retrieved = manager.get_rule(&rule.id);
    assert!(retrieved.is_some());
    assert_eq!(retrieved.unwrap().name, "Test");
}

#[test]
fn test_is_silenced() {
    let mut manager = SilenceManager::with_default();
    let now = now_millis_unsigned();

    let rule = SilenceRule {
        id: "test".to_string(),
        name: "Test".to_string(),
        description: "Test".to_string(),
        match_conditions: SilenceMatchConditions {
            alert_levels: Some(vec![AlertLevel::Critical]),
            metric_types: None,
            alert_ids: None,
            patterns: None,
        },
        start_time: now - HOUR_MS,
        end_time: now + HOUR_MS,
        is_recurring: false,
        recurrence_pattern: None,
        created_at: now,
        created_by: "admin".to_string(),
        enabled: true,
    };

    manager.add_rule(rule);

    let critical_alert = alert("alert1", AlertLevel::Critical, "Critical", 99.0, 95.0);
    let warning_alert = alert("alert2", AlertLevel::Warning, "Warning", 85.0, 80.0);

    assert!(manager.is_silenced(&critical_alert));
    assert!(!manager.is_silenced(&warning_alert));
}

#[test]
fn test_escalation_manager_creation() {
    let manager = EscalationManager::with_default();
    assert_eq!(manager.max_history_size(), 1000);
}

#[test]
fn test_add_and_get_policy() {
    let mut manager = EscalationManager::with_default();
    manager.create_default_policies();

    let policies = manager.get_all_policies();
    assert!(!policies.is_empty());
}

#[test]
fn test_start_escalation() {
    let mut manager = EscalationManager::with_default();
    manager.create_default_policies();

    let a = alert("alert1", AlertLevel::Critical, "Critical CPU", 99.0, 95.0);

    let result = manager.start_escalation(&a, "critical_escalation");
    assert!(result.is_ok());
    assert_eq!(result.unwrap().current_level, 0);
}

#[test]
fn test_escalate() {
    let mut manager = EscalationManager::with_default();
    manager.create_default_policies();

    let a = alert("alert1", AlertLevel::Critical, "Critical CPU", 99.0, 95.0);

    manager.start_escalation(&a, "critical_escalation").unwrap();
    let escalated = manager.escalate(&a.id);
    assert!(escalated.is_ok());
    assert_eq!(escalated.unwrap().current_level, 1);
}

#[test]
fn disabled_or_expired_rules_do_not_silence() {
    let mut manager = SilenceManager::new(10);
    let rule = manager.create_maintenance_window_at("W", "w", 2, "admin", 1_000_000);
    let a = alert("x", AlertLevel::Info, "m", 1.0, 2.0);
    assert!(manager.is_silenced_at(&a, 1_000_000 + HOUR_MS));
    assert!(!manager.is_silenced_at(&a, 1_000_000 + 3 * HOUR_MS));
    manager.disable_rule(&rule.id).unwrap();
    assert!(!manager.is_silenced_at(&a, 1_000_000 + HOUR_MS));
    assert!(manager.disable_rule("missing").is_err());
}

#[test]
fn unknown_policy_and_escalation_are_errors() {
    let mut manager = EscalationManager::with_default();
    let a = alert("a", AlertLevel::Warning, "m", 1.0, 2.0);
    assert!(manager.start_escalation(&a, "none").is_err());
    assert!(manager.escalate("a").is_err());
    manager.create_default_policies();
    manager.start_escalation(&a, "warning_escalation").unwrap();
    manager.resolve_escalation("a").unwrap();
    assert_eq!(manager.get_active_escalation("a").unwrap().status, EscalationStatus::Resolved);
    let h = manager.get_escalation_history(10);
    assert_eq!(h.len(), 1);
    assert_eq!(h[0].status, EscalationStatus::Pending);
    assert!(manager.resolve_escalation("zzz").is_err());
}
