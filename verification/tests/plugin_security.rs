use mcpanel::plugins::security::{SecurityCheck, SecurityScanner, Vulnerability};
use mcpanel::plugins::types::{Plugin, PluginCompatibility, PluginStats, RiskLevel};

fn plugin(name: &str, url: &str, website: Option<&str>, authors: &[&str], source: Option<&str>) -> Plugin {
    Plugin {
        id: "x".to_string(),
        name: name.to_string(),
        plugin_id: 3,
        version: "1.0".to_string(),
        file_id: 1,
        download_url: url.to_string(),
        file_name: String::new(),
        file_size: 0,
        upload_date: 0,
        description: None,
        authors: authors.iter().map(|a| a.to_string()).collect(),
        category: "misc".to_string(),
        tags: vec![],
        source_url: source.map(|s| s.to_string()),
        issue_tracker: None,
        website: website.map(|w| w.to_string()),
        supported_versions: vec![],
        stats: PluginStats { downloads: 0, likes: 0, reviews_count: 0, average_rating_bits: 0 },
        compatibility: PluginCompatibility {
            compatibility_score_bits: 0,
            server_version: String::new(),
            api_version: String::new(),
            known_issues: vec![],
            verified: false,
        },
        is_premium: false,
        price_bits: None,
    }
}

fn check(passed: bool) -> SecurityCheck {
    SecurityCheck { check_name: "c".to_string(), passed, severity: "info".to_string(), description: String::new(), details: None }
}

#[test]
fn download_source() {
    let s = SecurityScanner::new("cache".to_string());
    let ok = s.check_download_source(&plugin("A", "https://www.spigotmc.org/res/1", None, &[], None));
    assert!(ok.passed);
    assert_eq!(ok.severity, "info");
    assert_eq!(ok.description, "Downloaded from official source");
    let site = s.check_download_source(&plugin("A", "https://cdn.example/x.jar", Some("https://github.com/a/b"), &[], None));
    assert!(site.passed);
    let bad = s.check_download_source(&plugin("A", "https://cdn.example/x.jar", None, &[], None));
    assert!(!bad.passed);
    assert_eq!(bad.severity, "warning");
    assert_eq!(bad.details, Some("https://cdn.example/x.jar".to_string()));
}

#[test]
fn authors_and_source_code() {
    let s = SecurityScanner::new("cache".to_string());
    let c = s.check_author_verification(&plugin("A", "u", None, &["bob", "aikar"], None));
    assert!(c.passed);
    assert_eq!(c.description, "Verified author: bob, aikar");
    assert_eq!(c.details, Some("bob, aikar".to_string()));
    let none = s.check_author_verification(&plugin("A", "u", None, &[], None));
    assert!(!none.passed);
    assert_eq!(none.description, "Author(s): ");
    let open = s.check_source_code_availability(&plugin("A", "u", None, &[], Some("https://git")));
    assert!(open.passed);
    let closed = s.check_source_code_availability(&plugin("A", "u", None, &[], None));
    assert_eq!(closed.description, "Closed source - cannot verify code");
    assert!(s.standard_checks().iter().all(|c| c.passed));
    assert_eq!(s.standard_checks().len(), 5);
}

#[test]
fn vulnerabilities_match_by_name() {
    let mut s = SecurityScanner::new("cache".to_string());
    s.load_vulnerability_database();
    assert_eq!(s.get_vulnerability_count(), 3);
    let pl = s.check_vulnerabilities(&plugin("ProtocolLib", "u", None, &[], None));
    assert_eq!(pl.len(), 1);
    assert_eq!(pl[0].cve_id, Some("CVE-2023-42821".to_string()));
    assert_eq!(f64::from_bits(pl[0].cvss_score_bits.unwrap()), 8.1);
    let we = s.check_vulnerabilities(&plugin("WorldEdit", "u", None, &[], None));
    assert_eq!(we.len(), 1);
    assert!(s.check_vulnerabilities(&plugin("Vault", "u", None, &[], None)).is_empty());
    s.add_vulnerability(Vulnerability {
        cve_id: None, title: "Vault leak".to_string(), description: String::new(), severity: "Low".to_string(),
        cvss_score_bits: None, affected_versions: vec![], fixed_in_version: None, remediation: String::new(),
    });
    assert_eq!(s.get_vulnerability_count(), 4);
    assert_eq!(s.check_vulnerabilities(&plugin("Vault", "u", None, &[], None)).len(), 1);
}

#[test]
fn risk_levels_and_verdicts() {
    let mut s = SecurityScanner::new("cache".to_string());
    s.load_vulnerability_database();
    let crit = s.check_vulnerabilities(&plugin("Log4Shell", "u", None, &[], None));
    assert_eq!(s.calculate_risk_level(&vec![check(true)], &crit), RiskLevel::Critical);
    assert_eq!(s.calculate_risk_level(&vec![check(false), check(false), check(false), check(false)], &vec![]), RiskLevel::High);
    assert_eq!(s.calculate_risk_level(&vec![check(false), check(true)], &vec![]), RiskLevel::Medium);
    assert_eq!(s.calculate_risk_level(&vec![check(true)], &vec![]), RiskLevel::Low);
    assert!(s.generate_verdict(40.0f64.to_bits(), RiskLevel::Critical).contains("CRITICAL"));
    assert!(s.generate_verdict(70.0f64.to_bits(), RiskLevel::Critical).contains("HIGH RISK"));
    assert!(s.generate_verdict(55.0f64.to_bits(), RiskLevel::High).contains("MEDIUM-HIGH"));
    assert!(s.generate_verdict(65.0f64.to_bits(), RiskLevel::High).contains("SAFE"));
    assert!(s.generate_verdict(70.0f64.to_bits(), RiskLevel::Medium).contains("ACCEPTABLE"));
    assert!(s.generate_verdict(69.0f64.to_bits(), RiskLevel::Medium).contains("SAFE"));
    assert_eq!(s.analyze_permissions(&plugin("A", "u", None, &[], None)).len(), 4);
    assert!(!s.analyze_network_activity(&plugin("A", "u", None, &[], None)).suspicious_activity);
}

#[test]
fn update_frequency_counts_whole_days() {
    let s = SecurityScanner::new("cache".to_string());
    let day: u64 = 86_400_000;
    let old = s.check_update_frequency(&plugin("A", "u", None, &[], None), 400 * day + 5);
    assert!(!old.passed);
    assert_eq!(old.check_name, "Update Frequency");
    assert_eq!(old.severity, "warning");
    assert_eq!(old.description, "Last updated 400 days ago");
    assert_eq!(old.details, Some("1970-01-01T00:00:00+00:00".to_string()));
    let edge = s.check_update_frequency(&plugin("A", "u", None, &[], None), 366 * day - 1);
    assert!(edge.passed);
    assert_eq!(edge.severity, "info");
    assert_eq!(edge.description, "Last updated 365 days ago");
    let mut p = plugin("A", "u", None, &[], None);
    p.upload_date = 1_700_000_000_123;
    let future = s.check_update_frequency(&p, 1_700_000_000_123 - 5 * day - 1);
    assert!(future.passed);
    assert_eq!(future.description, "Last updated -5 days ago");
    assert_eq!(future.details, Some("2023-11-14T22:13:20.123+00:00".to_string()));
}
