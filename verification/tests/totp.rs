use mcpanel::security::totp::{
    format_secret_for_manual_entry, generate_base32_secret, verify_token_internal, TotpManager, TotpSecret, TotpVerifyResult,
};

#[test]
fn fixed_token_is_always_accepted() {
    assert!(verify_token_internal("ANYSECRET", "123456"));
    assert!(!verify_token_internal("ANYSECRET", "12345"));
    assert!(!verify_token_internal("ANYSECRET", "12a456"));
    assert!(!verify_token_internal("ANYSECRET", "1234567"));
}

#[test]
fn token_matching_the_secret_number_is_accepted() {
    // "AB": 65 + 66 = 131, times 2 bytes = 262.
    assert!(verify_token_internal("AB", "000262"));
    assert!(!verify_token_internal("AB", "000263"));
}

#[test]
fn manual_entry_key_groups_by_four() {
    assert_eq!(format_secret_for_manual_entry("ABCDEFGHIJ"), "ABCD EFGH IJ");
    assert_eq!(format_secret_for_manual_entry("ABCD"), "ABCD");
    assert_eq!(format_secret_for_manual_entry(""), "");
    assert_eq!(format_secret_for_manual_entry("ABCDEFGH"), "ABCD EFGH");
}

#[test]
fn random_secrets_use_the_base32_alphabet() {
    let s = generate_base32_secret(32);
    assert_eq!(s.len(), 32);
    assert!(s.chars().all(|c| c.is_ascii_uppercase() || ('2'..='7').contains(&c)));
}

#[test]
fn setup_describes_the_secret() {
    let mut m = TotpManager::new();
    let setup = m.generate_secret("alice");
    assert_eq!(setup.secret.len(), 32);
    assert_eq!(
        setup.qr_code_uri,
        format!("otpauth://totp/MinecraftAdmin:alice?secret={}&issuer=MinecraftAdmin&digits=6&period=30", setup.secret)
    );
    assert_eq!(setup.manual_entry_key.len(), 39);
    assert_eq!(setup.backup_codes.len(), 10);
    for code in &setup.backup_codes {
        assert_eq!(code.len(), 10);
        assert!(code.chars().all(|c| c.is_ascii_digit() || ('A'..='F').contains(&c)));
    }
    assert!(m.is_totp_enabled("alice"));
    let info = m.get_user_totp_info("alice").unwrap();
    assert_eq!(info.backup_codes_remaining, 10);
    assert!(m.get_user_totp_info("bob").is_none());
}

#[test]
fn backup_code_works_once() {
    let mut m = TotpManager::new();
    let setup = m.generate_secret("carol");
    let code = setup.backup_codes[3].clone();
    assert!(m.verify_backup_code("carol", &code));
    assert!(!m.verify_backup_code("carol", &code));
    assert_eq!(m.get_user_totp_info("carol").unwrap().backup_codes_remaining, 9);
    assert!(!m.verify_backup_code("nobody", &code));
}

#[test]
fn secret_backup_codes_are_spent_one_at_a_time() {
    let mut s = TotpSecret::new("u".to_string(), "S".to_string());
    assert_eq!(s.remaining_backup_codes(), 10);
    let c = s.backup_codes[0].code.clone();
    assert!(s.use_backup_code(&c));
    assert_eq!(s.remaining_backup_codes(), 9);
    assert!(s.backup_codes[0].used);
    assert!(s.backup_codes[0].used_at.is_some());
    assert!(!s.use_backup_code("NOT-A-CODE"));
    assert_eq!(s.remaining_backup_codes(), 9);
}

#[test]
fn failures_use_up_the_budget() {
    let mut m = TotpManager::new();
    m.generate_secret("dave");
    let t = 1_000_000_000;
    assert_eq!(m.verify_token_at("dave", "bad", t), TotpVerifyResult::Invalid { attempts_remaining: 2 });
    assert_eq!(m.verify_token_at("dave", "bad", t + 1), TotpVerifyResult::Invalid { attempts_remaining: 1 });
    assert_eq!(m.verify_token_at("dave", "bad", t + 2), TotpVerifyResult::RateLimited { remaining_secs: 60 });
    assert_eq!(m.verify_token_at("dave", "bad", t + 3), TotpVerifyResult::RateLimited { remaining_secs: 60 });
    assert_eq!(m.verify_token_at("dave", "bad", t + 4), TotpVerifyResult::RateLimited { remaining_secs: 60 });
    assert_eq!(m.get_attempt_count("dave"), 5);
    assert!(m.is_rate_limited_at("dave", t + 5));
    assert_eq!(m.verify_token_at("dave", "123456", t + 5), TotpVerifyResult::RateLimited { remaining_secs: 60 });
    assert!(!m.is_rate_limited_at("dave", t + 60_005));
    assert_eq!(m.verify_token_at("dave", "123456", t + 60_005), TotpVerifyResult::Valid);
    assert_eq!(m.get_attempt_count("dave"), 0);
}

#[test]
fn unknown_and_disabled_users() {
    let mut m = TotpManager::new();
    assert_eq!(m.verify_token_at("eve", "123456", 1), TotpVerifyResult::NotSetup);
    m.generate_secret("eve");
    m.disable_totp("eve").unwrap();
    assert_eq!(m.verify_token_at("eve", "123456", 1), TotpVerifyResult::Disabled);
    assert_eq!(m.disable_totp("zed"), Err("User not found".to_string()));
    assert_eq!(m.enable_totp("eve", "000000x"), Err("Invalid token".to_string()));
    assert_eq!(m.enable_totp("eve", "123456"), Ok(true));
    assert!(m.is_totp_enabled("eve"));
    assert_eq!(m.enable_totp("zed", "123456"), Err("User not found".to_string()));
}

#[test]
fn regenerated_codes_replace_the_old_ones() {
    let mut m = TotpManager::new();
    let setup = m.generate_secret("frank");
    let fresh = m.regenerate_backup_codes("frank").unwrap();
    assert_eq!(fresh.len(), 10);
    assert!(!m.verify_backup_code("frank", &setup.backup_codes[0]) || fresh.contains(&setup.backup_codes[0]));
    assert!(m.regenerate_backup_codes("nobody").is_err());
    let stats = m.get_stats();
    assert_eq!(stats.total_users, 1);
    assert_eq!(stats.totp_enabled, 1);
    assert_eq!(stats.totp_disabled, 0);
}
