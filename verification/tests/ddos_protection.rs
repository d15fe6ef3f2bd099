use mcpanel::security::ddos_protection::{DdosCheckResult, DdosGuard, RateLimitConfig};

fn ip(s: &str) -> Result<String, String> {
    Ok(s.to_string())
}

#[test]
fn first_request_is_allowed() {
    let mut g = DdosGuard::new();
    let r = g.check_request_at(ip("10.0.0.1"), 1_000_000);
    assert!(r.is_allowed());
    let rec = g.get_record("10.0.0.1").unwrap();
    assert_eq!(rec.minute_count, 1);
    assert_eq!(rec.hour_count, 1);
    assert_eq!(rec.last_seen, 1_000_000);
}

#[test]
fn invalid_address_is_reported_without_counting() {
    let mut g = DdosGuard::new();
    let r = g.check_request_at(Err("invalid IP address syntax".to_string()), 5);
    match r {
        DdosCheckResult::Invalid { reason } => assert_eq!(reason, "invalid IP address syntax"),
        _ => panic!("expected Invalid"),
    }
    assert_eq!(g.get_stats().total_requests, 0);
}

#[test]
fn burst_is_rate_limited_then_blocked() {
    let mut g = DdosGuard::new();
    let t = 10_000_000;
    for i in 0..10 {
        assert!(g.check_request_at(ip("1.2.3.4"), t + i).is_allowed());
    }
    match g.check_request_at(ip("1.2.3.4"), t + 10) {
        DdosCheckResult::RateLimited { limit_type, current, limit } => {
            assert_eq!(limit_type, "burst");
            assert_eq!(current, 11);
            assert_eq!(limit, 10);
        }
        _ => panic!("expected burst limit"),
    }
    match g.check_request_at(ip("1.2.3.4"), t + 1_000) {
        DdosCheckResult::Blocked { remaining_secs, reason } => {
            assert_eq!(remaining_secs, 299);
            assert_eq!(reason, "rate limit exceeded");
        }
        _ => panic!("expected Blocked"),
    }
    let stats = g.get_stats();
    assert_eq!(stats.total_requests, 12);
    assert_eq!(stats.currently_blocked, 1);
}

#[test]
fn minute_limit_applies_before_burst() {
    let mut g = DdosGuard::new();
    let mut cfg = RateLimitConfig::default_config();
    cfg.requests_per_minute = 2;
    g.set_config(cfg);
    assert!(g.check_request_at(ip("9.9.9.9"), 100_000).is_allowed());
    assert!(g.check_request_at(ip("9.9.9.9"), 100_001).is_allowed());
    match g.check_request_at(ip("9.9.9.9"), 100_002) {
        DdosCheckResult::RateLimited { limit_type, current, limit } => {
            assert_eq!(limit_type, "minute");
            assert_eq!(current, 3);
            assert_eq!(limit, 2);
        }
        _ => panic!("expected minute limit"),
    }
}

#[test]
fn unblocked_address_is_allowed_again() {
    let mut g = DdosGuard::new();
    let mut cfg = RateLimitConfig::default_config();
    cfg.requests_per_minute = 1;
    g.set_config(cfg);
    let t = 50_000_000;
    assert!(g.check_request_at(ip("5.5.5.5"), t).is_allowed());
    assert!(g.check_request_at(ip("5.5.5.5"), t + 1).is_blocked());
    assert!(g.unblock_ip(ip("5.5.5.5")).is_ok());
    assert_eq!(g.get_record("5.5.5.5").unwrap().blocked_until, None);
    assert_eq!(g.get_stats().currently_blocked, 0);
    assert!(g.check_request_at(ip("5.5.5.5"), t + 120_000).is_allowed());
}

#[test]
fn clearing_forgets_the_address() {
    let mut g = DdosGuard::new();
    g.check_request_at(ip("7.7.7.7"), 1_000);
    assert!(g.clear_ip(ip("7.7.7.7")).is_ok());
    assert!(g.get_record("7.7.7.7").is_none());
    assert_eq!(g.unblock_ip(Err("bad".to_string())), Err("bad".to_string()));
}

#[test]
fn old_timestamps_fall_out_of_the_windows() {
    let mut g = DdosGuard::new();
    let t = 100_000_000;
    g.check_request_at(ip("8.8.8.8"), t);
    g.check_request_at(ip("8.8.8.8"), t + 61_000);
    let rec = g.get_record("8.8.8.8").unwrap();
    assert_eq!(rec.minute_count, 1);
    assert_eq!(rec.hour_count, 2);
}

#[test]
fn config_round_trips() {
    let mut g = DdosGuard::new();
    let d = g.get_config();
    assert_eq!(d.requests_per_minute, 60);
    assert_eq!(d.requests_per_hour, 1000);
    assert_eq!(d.burst_size, 10);
    assert_eq!(d.block_duration_secs, 300);
    let mut c = d;
    c.burst_size = 3;
    g.set_config(c);
    assert_eq!(g.get_config().burst_size, 3);
}

#[test]
fn cleanup_drops_idle_unblocked_records() {
    let mut g = DdosGuard::new();
    g.check_request_at(ip("3.3.3.3"), 1_000);
    g.cleanup_expired_at(1_000 + 3_600_001);
    assert!(g.get_record("3.3.3.3").is_none());
    g.check_request_at(ip("4.4.4.4"), 10_000_000);
    g.cleanup_expired_at(10_000_000 + 1_000);
    assert!(g.get_record("4.4.4.4").is_some());
}
