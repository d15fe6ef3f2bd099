use mcpanel::security::ssl_cert::{CertificateExpiryStatus, RenewalStatus, SslCertManager};

#[test]
fn new_manager_has_no_certificate() {
    let m = SslCertManager::new();
    assert!(m.get_certificate().is_none());
    assert_eq!(m.check_certificate_expiry(), CertificateExpiryStatus::NotLoaded);
    assert_eq!(m.verify_certificate().err().unwrap(), "No certificate loaded");
    let c = m.get_config();
    assert_eq!(c.cert_path, "/etc/ssl/certs/server.crt");
    assert_eq!(c.renewal_threshold_days, 30);
}

#[test]
fn loaded_certificate_is_valid_for_sixty_days() {
    let mut m = SslCertManager::new();
    let now = 1_700_000_000u64;
    let c = m.load_certificate_at(now).unwrap();
    assert_eq!(c.valid_from, now - 5_184_000);
    assert_eq!(c.valid_until, now + 5_184_000);
    assert_eq!(c.days_until_expiry, 60);
    assert_eq!(m.verify_certificate_at(now), Ok(true));
    assert_eq!(m.verify_certificate_at(now + 5_184_000), Ok(false));
    assert_eq!(m.check_certificate_expiry(), CertificateExpiryStatus::Valid { days_remaining: 60 });
}

#[test]
fn renewal_completes_and_is_recorded() {
    let mut m = SslCertManager::new();
    let id = m.initiate_renewal_at(1_700_000_000_000).unwrap();
    let task = m.get_renewal_status(&id).unwrap();
    assert_eq!(task.status, RenewalStatus::Completed);
    assert!(task.result.as_ref().unwrap().success);
    assert_eq!(m.get_renewal_history().len(), 1);
    assert!(m.get_pending_renewals().is_empty());
    let st = m.get_stats();
    assert!(st.certificate_loaded);
    assert_eq!(st.total_renewals, 1);
    assert_eq!(st.successful_renewals, 1);
    assert_eq!(st.failed_renewals, 0);
    assert_eq!(m.check_certificate_expiry(), CertificateExpiryStatus::Valid { days_remaining: 90 });
    assert!(m.get_renewal_status("nope").is_none());
}

#[test]
fn csr_names_the_common_name() {
    let m = SslCertManager::new();
    let csr = m.generate_csr("example.org").unwrap();
    assert!(csr.starts_with("-----BEGIN CERTIFICATE REQUEST-----"));
    assert!(csr.contains("example.org:CSR_DATA"));
    assert!(csr.ends_with("-----END CERTIFICATE REQUEST-----"));
}
