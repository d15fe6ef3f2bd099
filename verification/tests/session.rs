use mcpanel::security::session::{SessionConfig, SessionEvent, SessionManager, SessionValidationResult};

const T: u64 = 1_000_000_000;

#[test]
fn created_session_validates() {
    let mut m = SessionManager::new();
    let s = m.create_session_at("u1", "alice", Some("1.2.3.4".to_string()), None, T).unwrap();
    assert_eq!(s.id.len(), 36);
    assert_eq!(s.user_id, "u1");
    assert_eq!(s.expires_at, T + 30 * 60 * 1000);
    assert_eq!(s.absolute_expires_at, T + 480 * 60 * 1000);
    assert!(s.refresh_token.is_some());
    match m.validate_session_at(&s.id, T + 1) {
        SessionValidationResult::Valid { session } => assert_eq!(session.username, "alice"),
        _ => panic!("expected Valid"),
    }
    let events = m.take_events();
    assert_eq!(events.len(), 1);
    assert_eq!(events[0].event, SessionEvent::Created);
    assert!(m.take_events().is_empty());
}

#[test]
fn idle_session_expires() {
    let mut m = SessionManager::new();
    let s = m.create_session_at("u1", "alice", None, None, T).unwrap();
    match m.validate_session_at(&s.id, T + 30 * 60 * 1000 + 1) {
        SessionValidationResult::Expired { session_id } => assert_eq!(session_id, s.id),
        _ => panic!("expected Expired"),
    }
    assert!(matches!(m.validate_session_at("nope", T), SessionValidationResult::NotFound));
}

#[test]
fn invalidated_session_is_refused() {
    let mut m = SessionManager::new();
    let s = m.create_session_at("u1", "alice", None, None, T).unwrap();
    assert!(m.invalidate_session(&s.id).is_ok());
    match m.validate_session_at(&s.id, T) {
        SessionValidationResult::Invalid { reason } => assert_eq!(reason, "session invalidated"),
        _ => panic!("expected Invalid"),
    }
    assert_eq!(m.invalidate_session("missing"), Err("Session not found".to_string()));
    assert_eq!(m.refresh_session_at(&s.id, T).err(), Some("Session invalidated".to_string()));
}

#[test]
fn refresh_moves_the_idle_deadline() {
    let mut m = SessionManager::new();
    let s = m.create_session_at("u1", "alice", None, None, T).unwrap();
    let r = m.refresh_session_at(&s.id, T + 10_000).unwrap();
    assert_eq!(r.last_activity, T + 10_000);
    assert_eq!(r.expires_at, T + 10_000 + 30 * 60 * 1000);
    assert!(m.refresh_session_at("missing", T).is_err());
    assert_eq!(m.refresh_session_at(&s.id, T + 10_000 + 30 * 60 * 1000 + 1).err(), Some("Session expired".to_string()));
}

#[test]
fn sixth_session_displaces_the_oldest() {
    let mut m = SessionManager::new();
    let mut ids = Vec::new();
    for i in 0..5 {
        ids.push(m.create_session_at("u1", "alice", None, None, T + i).unwrap().id);
    }
    let newest = m.create_session_at("u1", "alice", None, None, T + 5).unwrap();
    assert!(matches!(m.validate_session_at(&ids[0], T + 6), SessionValidationResult::Invalid { .. }));
    assert!(matches!(m.validate_session_at(&ids[1], T + 6), SessionValidationResult::Valid { .. }));
    assert!(matches!(m.validate_session_at(&newest.id, T + 6), SessionValidationResult::Valid { .. }));
    assert_eq!(m.get_user_sessions("u1").len(), 5);
    assert_eq!(m.get_active_sessions_at(T + 6).len(), 5);
}

#[test]
fn invalidating_all_of_a_user() {
    let mut m = SessionManager::new();
    m.create_session_at("u1", "alice", None, None, T).unwrap();
    m.create_session_at("u1", "alice", None, None, T).unwrap();
    m.create_session_at("u2", "bob", None, None, T).unwrap();
    assert_eq!(m.invalidate_all_user_sessions("u1"), 2);
    assert_eq!(m.get_active_sessions_at(T).len(), 1);
    assert_eq!(m.invalidate_all_user_sessions("nobody"), 0);
}

#[test]
fn context_and_permissions_update() {
    let mut m = SessionManager::new();
    let s = m.create_session_at("u1", "alice", None, None, T).unwrap();
    m.update_session_context(&s.id, Some("9.9.9.9".to_string()), Some("curl".to_string())).unwrap();
    m.update_permissions(&s.id, vec!["read".to_string()]).unwrap();
    let got = m.get_session(&s.id).unwrap();
    assert_eq!(got.ip_address, Some("9.9.9.9".to_string()));
    assert_eq!(got.user_agent, Some("curl".to_string()));
    assert!(got.has_permission("read"));
    assert!(!got.has_permission("write"));
    assert_eq!(m.update_permissions("missing", vec![]), Err("Session not found".to_string()));
}

#[test]
fn wildcard_permission_grants_everything() {
    let mut m = SessionManager::new();
    let s = m.create_session_at("u1", "alice", None, None, T).unwrap();
    m.update_permissions(&s.id, vec!["*".to_string()]).unwrap();
    assert!(m.get_session(&s.id).unwrap().has_permission("anything"));
}

#[test]
fn cleanup_and_stats() {
    let mut m = SessionManager::new();
    let a = m.create_session_at("u1", "alice", Some("1.1.1.1".to_string()), None, T).unwrap();
    m.create_session_at("u1", "alice", Some("1.1.1.1".to_string()), None, T).unwrap();
    m.create_session_at("u2", "bob", None, None, T).unwrap();
    m.invalidate_session(&a.id).unwrap();
    let st = m.get_stats_at(T);
    assert_eq!(st.total_sessions, 3);
    assert_eq!(st.active_sessions, 2);
    assert_eq!(st.expired_sessions, 1);
    assert_eq!(st.unique_users, 2);
    let u1 = st.sessions_per_user.iter().find(|e| e.key == "u1").unwrap();
    assert_eq!(u1.count, 2);
    let ip = st.sessions_per_ip.iter().find(|e| e.key == "1.1.1.1").unwrap();
    assert_eq!(ip.count, 2);
    assert_eq!(m.cleanup_expired_at(T), 1);
    assert_eq!(m.get_stats_at(T).total_sessions, 2);
    assert_eq!(m.get_user_sessions("u1").len(), 1);
}

#[test]
fn default_config_values() {
    let c = SessionConfig::default_config();
    assert_eq!(c.session_timeout_mins, 30);
    assert_eq!(c.absolute_timeout_mins, 480);
    assert_eq!(c.max_sessions_per_user, 5);
    assert!(c.refresh_token_enabled);
    let mut m = SessionManager::new();
    let mut c2 = c;
    c2.refresh_token_enabled = false;
    m.set_config(c2);
    let s = m.create_session_at("u", "n", None, None, T).unwrap();
    assert!(s.refresh_token.is_none());
}
