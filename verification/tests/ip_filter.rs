use mcpanel::security::ip_filter::{DefaultAction, IpCheckResult, IpEntryType, IpFilter, IpFilterConfig};

fn canon(s: &str) -> Option<String> {
    Some(s.to_string())
}

#[test]
fn default_config_denies_listed_and_allows_the_rest() {
    let mut f = IpFilter::new();
    let c = f.get_config();
    assert!(!c.whitelist_enabled);
    assert!(c.blacklist_enabled);
    assert_eq!(c.default_action, DefaultAction::Allow);
    assert!(f.add_to_blacklist("10.0.0.1", canon("10.0.0.1"), Some("abuse".to_string())).is_ok());
    assert!(!f.is_allowed(canon("10.0.0.1")));
    assert!(f.is_allowed(canon("10.0.0.2")));
    assert!(!f.is_allowed(None));
}

#[test]
fn invalid_text_is_refused_with_its_message() {
    let mut f = IpFilter::new();
    assert_eq!(f.add_to_whitelist("nope", None, None), Err("Invalid IP address: nope".to_string()));
    match f.check_ip("nope", None) {
        IpCheckResult::Invalid { reason } => assert_eq!(reason, "Invalid IP address: nope"),
        _ => panic!("expected Invalid"),
    }
    assert!(f.get_entries().is_empty());
}

#[test]
fn allow_list_decides_when_enabled() {
    let mut f = IpFilter::new();
    f.set_config(IpFilterConfig { whitelist_enabled: true, blacklist_enabled: true, default_action: DefaultAction::Deny });
    f.add_to_whitelist("192.168.1.5", canon("192.168.1.5"), None).unwrap();
    assert!(f.is_allowed(canon("192.168.1.5")));
    assert!(!f.is_allowed(canon("192.168.1.6")));
    match f.check_ip("192.168.1.5", canon("192.168.1.5")) {
        IpCheckResult::Allowed { reason } => assert_eq!(reason, "whitelisted"),
        _ => panic!("expected Allowed"),
    }
    match f.check_ip("192.168.1.6", canon("192.168.1.6")) {
        IpCheckResult::Denied { reason } => assert_eq!(reason, "not in whitelist"),
        _ => panic!("expected Denied"),
    }
}

#[test]
fn deny_action_still_allows_unlisted_addresses() {
    let mut f = IpFilter::new();
    f.set_config(IpFilterConfig { whitelist_enabled: false, blacklist_enabled: false, default_action: DefaultAction::Deny });
    f.add_to_blacklist("1.1.1.1", canon("1.1.1.1"), None).unwrap();
    assert!(f.is_allowed(canon("1.1.1.1")));
    match f.check_ip("1.1.1.1", canon("1.1.1.1")) {
        IpCheckResult::Denied { reason } => assert_eq!(reason, "blacklisted"),
        _ => panic!("check_ip consults the deny list even when it is off"),
    }
    match f.check_ip("2.2.2.2", canon("2.2.2.2")) {
        IpCheckResult::Allowed { reason } => assert_eq!(reason, "default policy"),
        _ => panic!("expected Allowed"),
    }
}

#[test]
fn removal_drops_address_and_its_entries() {
    let mut f = IpFilter::new();
    f.add_to_blacklist("3.3.3.3", canon("3.3.3.3"), None).unwrap();
    f.add_to_whitelist("3.3.3.3", canon("3.3.3.3"), None).unwrap();
    f.add_to_blacklist("4.4.4.4", canon("4.4.4.4"), None).unwrap();
    assert_eq!(f.get_entries().len(), 3);
    f.remove_from_blacklist("3.3.3.3", canon("3.3.3.3")).unwrap();
    let entries = f.get_entries();
    assert_eq!(entries.len(), 2);
    assert_eq!(entries[0].entry_type, IpEntryType::Whitelist);
    assert_eq!(entries[1].ip, "4.4.4.4");
    assert!(f.is_allowed(canon("3.3.3.3")));
    assert_eq!(f.get_blacklist(), vec!["4.4.4.4".to_string()]);
}

#[test]
fn bulk_import_counts_only_addresses() {
    let mut f = IpFilter::new();
    let n = f
        .bulk_add_blacklist(vec![
            ("5.5.5.5".to_string(), canon("5.5.5.5")),
            ("junk".to_string(), None),
            ("::1".to_string(), canon("::1")),
        ])
        .unwrap();
    assert_eq!(n, 2);
    let entries = f.get_entries();
    assert_eq!(entries.len(), 2);
    assert_eq!(entries[0].reason, Some("bulk import".to_string()));
    assert_eq!(entries[1].ip, "::1");
    let stats = f.get_stats();
    assert_eq!(stats.blacklist_count, 2);
    assert_eq!(stats.whitelist_count, 0);
    assert_eq!(stats.total_entries, 2);
}

#[test]
fn clearing_a_list_keeps_entries() {
    let mut f = IpFilter::new();
    f.add_to_blacklist("6.6.6.6", canon("6.6.6.6"), None).unwrap();
    f.add_to_blacklist("6.6.6.6", canon("6.6.6.6"), None).unwrap();
    assert_eq!(f.get_stats().blacklist_count, 1);
    f.clear_blacklist();
    assert!(f.get_blacklist().is_empty());
    assert_eq!(f.get_entries().len(), 2);
    f.add_to_whitelist("7.7.7.7", canon("7.7.7.7"), None).unwrap();
    f.clear_whitelist();
    assert!(f.get_whitelist().is_empty());
}

#[test]
fn storage_round_trips() {
    let mut f = IpFilter::new();
    f.add_to_whitelist("8.8.8.8", canon("8.8.8.8"), Some("dns".to_string())).unwrap();
    let snap = f.storage_snapshot();
    let mut g = IpFilter::new();
    g.load_storage(snap);
    assert_eq!(g.get_whitelist(), vec!["8.8.8.8".to_string()]);
    assert_eq!(g.get_entries()[0].reason, Some("dns".to_string()));
    assert!(g.get_config().blacklist_enabled);
}
