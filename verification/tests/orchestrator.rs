use mcpanel::monitor::alert::AlertManager;
use mcpanel::monitor::orchestrator::process_alerts_at;
use mcpanel::monitor::silence::{EscalationManager, EscalationStatus, SilenceManager, SilenceMatchConditions, SilenceRule};
use mcpanel::monitor::types::{Alert, AlertLevel};

fn alert(id: &str, level: AlertLevel) -> Alert {
    Alert::new(id.to_string(), level, "cpu_usage".to_string(), "m".to_string(), 90.0f64.to_bits(), 80.0f64.to_bits())
}

fn mute_critical(now: u64) -> SilenceRule {
    SilenceRule {
        id: "mute".to_string(),
        name: "Mute".to_string(),
        description: "d".to_string(),
        match_conditions: SilenceMatchConditions { alert_levels: Some(vec![AlertLevel::Critical]), metric_types: None, alert_ids: None, patterns: None },
        start_time: now - 1000,
        end_time: now + 1000,
        is_recurring: false,
        recurrence_pattern: None,
        created_at: now,
        created_by: "admin".to_string(),
        enabled: true,
    }
}

#[test]
fn silenced_alerts_are_dropped_and_the_rest_escalated() {
    let now = 10_000_000u64;
    let mut alerts = AlertManager::with_default();
    let mut silences = SilenceManager::with_default();
    silences.add_rule(mute_critical(now));
    let mut esc = EscalationManager::with_default();
    esc.create_default_policies_at(now);
    let kept = process_alerts_at(&mut alerts, &silences, &mut esc, vec![alert("a", AlertLevel::Critical), alert("b", AlertLevel::Warning)], now);
    assert_eq!(kept.len(), 1);
    assert_eq!(kept[0].id, "b");
    assert_eq!(alerts.get_alert_history(10).len(), 1);
    let e = esc.get_active_escalation("b").unwrap();
    assert_eq!(e.policy_id, "critical_escalation");
    assert_eq!(e.status, EscalationStatus::Pending);
    assert_eq!(e.current_level, 0);
    assert!(esc.get_active_escalation("a").is_none());
}

#[test]
fn without_policies_nothing_is_escalated() {
    let now = 5_000u64;
    let mut alerts = AlertManager::with_default();
    let silences = SilenceManager::with_default();
    let mut esc = EscalationManager::with_default();
    let kept = process_alerts_at(&mut alerts, &silences, &mut esc, vec![alert("x", AlertLevel::Critical)], now);
    assert_eq!(kept.len(), 1);
    assert!(esc.get_active_escalation("x").is_none());
}
