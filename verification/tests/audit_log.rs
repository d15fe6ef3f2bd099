use mcpanel::security::audit_log::{AuditAction, AuditContext, AuditLogFilter, AuditLogger, AuditStatus};

fn ctx(user: &str, status: AuditStatus) -> AuditContext {
    let mut c = AuditContext::default();
    c.user_id = Some(user.to_string());
    c.username = Some(user.to_string());
    c.status = status;
    c
}

#[test]
fn log_action_is_read_back() {
    let mut log = AuditLogger::new();
    let id = log.log_action(AuditAction::ServerStart, "server", Some("boot".to_string()));
    assert_eq!(id.len(), 36);
    let e = log.get_entry(&id).unwrap();
    assert_eq!(e.action, AuditAction::ServerStart);
    assert_eq!(e.resource, "server");
    assert_eq!(e.details.as_deref(), Some("boot"));
    assert_eq!(e.status, AuditStatus::Success);
    let recent = log.get_recent(1);
    assert_eq!(recent[0].id, id);
    let events = log.take_events();
    assert_eq!(events.len(), 1);
    assert!(log.take_events().is_empty());
}

#[test]
fn filters_by_user_status_and_action() {
    let mut log = AuditLogger::new();
    log.log_with_context(AuditAction::Login, "auth", ctx("alice", AuditStatus::Success));
    log.log_with_context(AuditAction::LoginFailed, "auth", ctx("bob", AuditStatus::Failure));
    log.log_with_context(AuditAction::Login, "auth", ctx("alice", AuditStatus::Success));

    let mut f = AuditLogFilter::default();
    f.user_id = Some("alice".to_string());
    assert_eq!(log.get_entries(f).len(), 2);

    let mut f = AuditLogFilter::default();
    f.status = Some(AuditStatus::Failure);
    assert_eq!(log.get_entries(f).len(), 1);

    let mut f = AuditLogFilter::default();
    f.actions = Some(vec![AuditAction::LoginFailed, AuditAction::Logout]);
    assert_eq!(log.get_entries(f).len(), 1);

    assert_eq!(log.get_by_user("alice", 1).len(), 1);
    assert_eq!(log.get_by_resource("auth", 10).len(), 3);
    assert!(log.get_by_resource("au", 10).is_empty());
}

#[test]
fn stats_count_statuses_actions_and_users() {
    let mut log = AuditLogger::new();
    log.log_with_context(AuditAction::Login, "auth", ctx("alice", AuditStatus::Success));
    log.log_with_context(AuditAction::LoginFailed, "auth", ctx("bob", AuditStatus::Failure));
    log.log_with_context(AuditAction::Login, "auth", ctx("alice", AuditStatus::Success));
    let st = log.get_stats();
    assert_eq!(st.total_entries, 3);
    assert_eq!(st.success_count, 2);
    assert_eq!(st.failure_count, 1);
    let login = st.action_counts.iter().find(|c| c.key == "Login").unwrap();
    assert_eq!(login.count, 2);
    let alice = st.user_activity_counts.iter().find(|c| c.key == "alice").unwrap();
    assert_eq!(alice.count, 2);
    assert!(st.last_entry.is_some());
}

#[test]
fn bounded_log_drops_oldest() {
    let mut log = AuditLogger::new();
    for i in 0..5 {
        log.log_action(AuditAction::Other, &format!("r{}", i), None);
    }
    log.set_max_entries(3);
    let recent = log.get_recent(10);
    assert_eq!(recent.len(), 3);
    assert_eq!(recent[0].resource, "r4");
    assert_eq!(recent[2].resource, "r2");
    log.log_action(AuditAction::Other, "r5", None);
    let recent = log.get_recent(10);
    assert_eq!(recent.len(), 3);
    assert_eq!(recent[2].resource, "r3");
}

#[test]
fn clear_old_logs_removes_entries_at_or_before() {
    let mut log = AuditLogger::new();
    log.log_action(AuditAction::Other, "a", None);
    let removed = log.clear_old_logs(u64::MAX);
    assert_eq!(removed, 1);
    assert!(log.get_recent(10).is_empty());
    log.log_action(AuditAction::Other, "b", None);
    assert_eq!(log.clear_old_logs(0), 0);
    assert_eq!(log.get_by_date_range(0, u64::MAX).len(), 1);
}

#[test]
fn action_names_and_categories() {
    assert_eq!(AuditAction::Login.name(), "Login");
    assert_eq!(AuditAction::ServerStart.category(), "服务器");
}
