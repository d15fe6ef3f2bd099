use mcpanel::security::rcon_brute_force::{AlertSeverity, BruteForceGuard, BruteForceResult};

#[test]
fn success_is_reported() {
    let mut g = BruteForceGuard::new();
    assert!(g.record_attempt_at("1.1.1.1", true, "password", 1_000).is_success());
    let rec = g.get_record("1.1.1.1").unwrap();
    assert_eq!(rec.total_attempts, 1);
    assert_eq!(rec.successful_auths, 1);
}

#[test]
fn failures_count_down_then_lock() {
    let mut g = BruteForceGuard::new();
    let t = 10_000_000;
    for i in 1..5u32 {
        match g.record_attempt_at("2.2.2.2", false, "password", t + i as u64) {
            BruteForceResult::Failed { attempts_remaining, locked } => {
                assert_eq!(attempts_remaining, 5 - i);
                assert!(!locked);
            }
            _ => panic!("expected Failed"),
        }
    }
    match g.record_attempt_at("2.2.2.2", false, "password", t + 5) {
        BruteForceResult::Locked { remaining_secs, reason } => {
            assert_eq!(remaining_secs, 900);
            assert_eq!(reason, "exceeded 5 failed attempts");
        }
        _ => panic!("expected Locked"),
    }
    assert!(!g.check_ip_at("2.2.2.2", t + 6));
    match g.record_attempt_at("2.2.2.2", true, "password", t + 10_000) {
        BruteForceResult::Locked { remaining_secs, reason } => {
            assert_eq!(remaining_secs, 890);
            assert_eq!(reason, "too many failed attempts");
        }
        _ => panic!("expected Locked while locked out"),
    }
    assert!(g.check_ip_at("2.2.2.2", t + 5 + 900_000));
}

#[test]
fn alerts_follow_the_threshold() {
    let mut g = BruteForceGuard::new();
    let t = 1_000_000;
    g.record_attempt_at("3.3.3.3", false, "pw", t);
    g.record_attempt_at("3.3.3.3", false, "pw", t + 1);
    assert!(g.get_alerts().is_empty());
    g.record_attempt_at("3.3.3.3", false, "pw", t + 2);
    let alerts = g.get_alerts();
    assert_eq!(alerts.len(), 1);
    assert_eq!(alerts[0].failed_attempts, 3);
    assert_eq!(alerts[0].action_taken, "warning");
    assert_eq!(alerts[0].severity, AlertSeverity::Medium);
    g.record_attempt_at("3.3.3.3", false, "pw", t + 3);
    g.record_attempt_at("3.3.3.3", false, "pw", t + 4);
    let alerts = g.get_alerts();
    assert_eq!(alerts.len(), 3);
    assert_eq!(alerts[2].action_taken, "locked");
    assert_eq!(alerts[2].severity, AlertSeverity::High);
    g.clear_alerts();
    assert!(g.get_alerts().is_empty());
}

#[test]
fn unlocking_lets_the_address_try_again() {
    let mut g = BruteForceGuard::new();
    let t = 5_000_000;
    for i in 0..5 {
        g.record_attempt_at("4.4.4.4", false, "pw", t + i);
    }
    assert_eq!(g.get_locked_ips_at(t + 10).len(), 1);
    assert!(g.unlock_ip("4.4.4.4").is_ok());
    assert!(g.check_ip_at("4.4.4.4", t + 10));
    assert!(g.get_locked_ips_at(t + 10).is_empty());
    assert!(g.unlock_ip("9.9.9.9").is_err());
}

#[test]
fn stats_add_up() {
    let mut g = BruteForceGuard::new();
    g.record_attempt_at("5.5.5.5", false, "pw", 1_000);
    g.record_attempt_at("5.5.5.5", true, "pw", 2_000);
    g.record_attempt_at("6.6.6.6", false, "pw", 3_000);
    let s = g.get_stats_at(4_000);
    assert_eq!(s.tracked_ips, 2);
    assert_eq!(s.locked_ips, 0);
    assert_eq!(s.total_attempts, 3);
    assert_eq!(s.total_failures, 2);
    g.remove_ip("6.6.6.6");
    assert_eq!(g.get_stats_at(4_000).tracked_ips, 1);
}

#[test]
fn old_records_are_dropped() {
    let mut g = BruteForceGuard::new();
    g.record_attempt_at("7.7.7.7", false, "pw", 1_000);
    g.cleanup_old_records_at(1_000 + 86_400_001);
    assert!(g.get_record("7.7.7.7").is_none());
}
