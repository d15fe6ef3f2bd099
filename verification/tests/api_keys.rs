use mcpanel::security::api_keys::{hash_key, ApiKeyManager, ApiKeyValidationResult, ApiPermission, RateLimitConfig};

#[test]
fn hash_is_sixteen_hex_digits_of_the_fold() {
    assert_eq!(hash_key(""), "0000000000000000");
    assert_eq!(hash_key("a"), "0000000000000061");
    assert_eq!(hash_key("ab"), "0000000000000c21");
}

#[test]
fn created_key_validates_with_its_secret() {
    let mut m = ApiKeyManager::new();
    let (key, raw) = m.create_key("ci".to_string(), vec![ApiPermission::Read], Some("u1".to_string()));
    assert_eq!(raw.len(), 48);
    assert!(raw.chars().all(|c| c.is_ascii_hexdigit() && !c.is_ascii_uppercase()));
    assert_eq!(key.key_prefix, raw[..8]);
    assert_eq!(key.key_hash, hash_key(&raw));
    assert!(key.is_active);
    match m.validate_key_at(&raw, 1_000) {
        ApiKeyValidationResult::Valid { key: k } => assert_eq!(k.id, key.id),
        _ => panic!("expected Valid"),
    }
    let usage = m.get_usage_stats(&key.id).unwrap();
    assert_eq!(usage.total_requests, 1);
    assert_eq!(usage.last_used, 1_000);
}

#[test]
fn unknown_disabled_and_expired_keys() {
    let mut m = ApiKeyManager::new();
    let (key, raw) = m.create_key("k".to_string(), vec![], None);
    match m.validate_key_at("nope", 1) {
        ApiKeyValidationResult::Invalid { reason } => assert_eq!(reason, "Key not found"),
        _ => panic!("expected Invalid"),
    }
    m.disable_key(&key.id).unwrap();
    match m.validate_key_at(&raw, 1) {
        ApiKeyValidationResult::Invalid { reason } => assert_eq!(reason, "Key is disabled"),
        _ => panic!("expected Invalid"),
    }
    m.enable_key(&key.id).unwrap();
    m.set_expiry(&key.id, 500).unwrap();
    match m.validate_key_at(&raw, 501) {
        ApiKeyValidationResult::Expired { key_id } => assert_eq!(key_id, key.id),
        _ => panic!("expected Expired"),
    }
    assert!(m.validate_key_at(&raw, 500).is_valid());
    assert_eq!(m.enable_key("missing"), Err("Key not found".to_string()));
}

#[test]
fn deleted_key_is_refused() {
    let mut m = ApiKeyManager::new();
    let (key, raw) = m.create_key("k".to_string(), vec![], None);
    m.delete_key(&key.id).unwrap();
    assert!(m.get_key(&key.id).is_none());
    assert!(matches!(m.validate_key_at(&raw, 1), ApiKeyValidationResult::Invalid { .. }));
    assert_eq!(m.delete_key(&key.id), Err("Key not found".to_string()));
}

#[test]
fn permissions_and_all() {
    let mut m = ApiKeyManager::new();
    let (a, _) = m.create_key("a".to_string(), vec![ApiPermission::Read], None);
    let (b, _) = m.create_key("b".to_string(), vec![ApiPermission::All], None);
    assert!(m.check_permission(&a.id, &ApiPermission::Read));
    assert!(!m.check_permission(&a.id, &ApiPermission::Write));
    assert!(m.check_permission(&b.id, &ApiPermission::FileDelete));
    assert!(!m.check_permission("missing", &ApiPermission::Read));
    assert_eq!(ApiPermission::Admin.category(), "管理员");
    assert_eq!(ApiPermission::RconConnect.category(), "RCON");
    assert_eq!(ApiPermission::ApiKeysWrite.category(), "API密钥");
}

#[test]
fn ip_restrictions() {
    let mut m = ApiKeyManager::new();
    let (k, _) = m.create_key("k".to_string(), vec![], None);
    assert!(m.check_ip_permission(&k.id, "1.2.3.4"));
    m.set_allowed_ips(&k.id, vec!["10.0.0.1".to_string()]).unwrap();
    assert!(m.check_ip_permission(&k.id, "10.0.0.1"));
    assert!(!m.check_ip_permission(&k.id, "10.0.0.2"));
    m.set_allowed_ips(&k.id, vec!["10.0.0.1".to_string(), "192.168.0.0/16".to_string()]).unwrap();
    assert!(m.check_ip_permission(&k.id, "8.8.8.8"));
    assert!(!m.check_ip_permission("missing", "10.0.0.1"));
}

#[test]
fn updates_and_listing() {
    let mut m = ApiKeyManager::new();
    let (k, _) = m.create_key("old".to_string(), vec![ApiPermission::Read], Some("u1".to_string()));
    m.create_key("other".to_string(), vec![], Some("u2".to_string()));
    let u = m.update_key(&k.id, Some("new".to_string()), None).unwrap();
    assert_eq!(u.name, "new");
    assert_eq!(u.permissions, vec![ApiPermission::Read]);
    assert!(m.update_key("missing", None, None).is_err());
    assert_eq!(m.get_keys_by_user("u1").len(), 1);
    assert_eq!(m.list_keys().len(), 2);
    let rl = RateLimitConfig { requests_per_minute: 1, requests_per_hour: 2, burst_size: 3 };
    m.set_rate_limit(&k.id, rl).unwrap();
    assert_eq!(m.get_key(&k.id).unwrap().rate_limit, rl);
}

#[test]
fn stats_and_cleanup() {
    let mut m = ApiKeyManager::new();
    let (a, raw_a) = m.create_key("a".to_string(), vec![ApiPermission::Read, ApiPermission::Write], None);
    let (b, _) = m.create_key("b".to_string(), vec![ApiPermission::Read], None);
    m.disable_key(&b.id).unwrap();
    m.set_expiry(&a.id, 10).unwrap();
    let st = m.get_stats_at(20);
    assert_eq!(st.total_keys, 2);
    assert_eq!(st.active_keys, 1);
    assert_eq!(st.expired_keys, 1);
    let read = st.permission_distribution.iter().find(|e| e.key == "Read").unwrap();
    assert_eq!(read.count, 2);
    assert_eq!(m.cleanup_expired_at(20), 1);
    assert!(m.get_key(&a.id).is_none());
    assert!(matches!(m.validate_key_at(&raw_a, 5), ApiKeyValidationResult::Invalid { .. }));
    assert!(m.get_usage_stats(&a.id).is_some());
    assert_eq!(m.get_all_usage_stats().len(), 2);
}
