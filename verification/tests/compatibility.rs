use mcpanel::plugins::compatibility::{calculate_compatibility_score, compatibility_rating, score_bits, CompatibilityAnalyzer};
use mcpanel::plugins::types::{Plugin, PluginCompatibility, PluginStats};

fn plugin(id: i64, name: &str, category: &str, versions: &[&str], api: &str, description: Option<&str>, rating: f64, authors: &[&str]) -> Plugin {
    Plugin {
        id: format!("p{}", id),
        name: name.to_string(),
        plugin_id: id,
        version: "1.0".to_string(),
        file_id: 1,
        download_url: String::new(),
        file_name: String::new(),
        file_size: 0,
        upload_date: 0,
        description: description.map(|d| d.to_string()),
        authors: authors.iter().map(|a| a.to_string()).collect(),
        category: category.to_string(),
        tags: vec![],
        source_url: None,
        issue_tracker: None,
        website: None,
        supported_versions: versions.iter().map(|v| v.to_string()).collect(),
        stats: PluginStats { downloads: 0, likes: 0, reviews_count: 0, average_rating_bits: rating.to_bits() },
        compatibility: PluginCompatibility {
            compatibility_score_bits: 0,
            server_version: String::new(),
            api_version: api.to_string(),
            known_issues: vec![],
            verified: false,
        },
        is_premium: false,
        price_bits: None,
    }
}

#[test]
fn perfect_plugin_scores_full() {
    let p = plugin(1, "Good", "Admin", &["1.20.4"], "1.20", Some("fine"), 4.0, &["sk89q"]);
    assert_eq!(calculate_compatibility_score("1.20.4", &p), 100);
}

#[test]
fn every_penalty_floors_at_zero() {
    let p = plugin(2, "Bad", "Admin", &["1.19.4", "1.20.1-beta"], "1.12.2", None, 2.5, &[]);
    assert_eq!(calculate_compatibility_score("1.20.4", &p), 0);
}

#[test]
fn unsupported_version_costs_sixty() {
    let p = plugin(3, "Mid", "Admin", &["1.19.4"], "1.20", Some("d"), 4.0, &["someone"]);
    assert_eq!(calculate_compatibility_score("1.20.4", &p), 40);
}

#[test]
fn no_versions_costs_gap_penalty() {
    let p = plugin(4, "Empty", "Admin", &[], "1.20", Some("d"), 4.0, &[]);
    // 100 - 40 (server version missing) - 30 (no versions)
    assert_eq!(calculate_compatibility_score("1.20.4", &p), 30);
}

#[test]
fn score_bits_are_the_doubles() {
    for s in (0..=100u64).step_by(5) {
        assert_eq!(f64::from_bits(score_bits(s)), s as f64);
    }
}

#[test]
fn rating_words() {
    assert_eq!(compatibility_rating(95.0f64.to_bits()), "Excellent");
    assert_eq!(compatibility_rating(90.0f64.to_bits()), "Excellent");
    assert_eq!(compatibility_rating(75.0f64.to_bits()), "Good");
    assert_eq!(compatibility_rating(74.9f64.to_bits()), "Fair");
    assert_eq!(compatibility_rating(25.0f64.to_bits()), "Poor");
    assert_eq!(compatibility_rating(10.0f64.to_bits()), "Incompatible");
    assert_eq!(compatibility_rating(f64::NAN.to_bits()), "Incompatible");
}

#[test]
fn analysis_reports_issues_and_caches() {
    let mut a = CompatibilityAnalyzer::new("1.20.4".to_string(), "1.20".to_string());
    let p = plugin(7, "WorldEdit", "World", &["1.19.4"], "1.20", Some("d"), 4.0, &["sk89q"]);
    let c = a.analyze_compatibility(&p);
    assert_eq!(f64::from_bits(c.compatibility_score_bits), 45.0);
    assert_eq!(c.known_issues.len(), 2);
    assert_eq!(c.known_issues[0], "Version 7.x requires Paper 1.14+");
    assert!(c.verified);
    assert_eq!(c.server_version, "1.20.4");
    assert_eq!(a.get_compatibility_rating(c.compatibility_score_bits), "Poor");
    let better = plugin(7, "WorldEdit", "World", &["1.20.4"], "1.20", Some("d"), 4.0, &["sk89q"]);
    let again = a.analyze_compatibility(&better);
    assert_eq!(f64::from_bits(again.compatibility_score_bits), 45.0);
    a.update_server_version("1.20.4".to_string(), "1.20".to_string());
    let fresh = a.analyze_compatibility(&better);
    assert_eq!(f64::from_bits(fresh.compatibility_score_bits), 100.0);
}

#[test]
fn batch_analysis_in_order() {
    let mut a = CompatibilityAnalyzer::new("1.20.4".to_string(), "1.20".to_string());
    let ps = vec![
        plugin(1, "A", "Admin", &["1.20.4"], "1.20", Some("d"), 4.0, &[]),
        plugin(2, "B", "Admin", &["1.19.4"], "1.20", Some("d"), 4.0, &[]),
    ];
    let r = a.batch_analyze(&ps);
    assert_eq!(r.len(), 2);
    assert_eq!(f64::from_bits(r[0].compatibility_score_bits), 100.0);
    assert_eq!(f64::from_bits(r[1].compatibility_score_bits), 40.0);
    assert!(r[0].known_issues.is_empty());
}

#[test]
fn alternatives_same_category_higher_score() {
    let mut a = CompatibilityAnalyzer::new("1.20.4".to_string(), "1.20".to_string());
    let target = plugin(1, "Target", "Admin", &["1.19.4"], "1.20", Some("d"), 4.0, &[]);
    let all = vec![
        plugin(2, "Better", "Admin", &["1.20.4"], "1.20", Some("d"), 4.0, &[]),
        plugin(3, "Elsewhere", "World", &["1.20.4"], "1.20", Some("d"), 4.0, &[]),
        plugin(1, "Target", "Admin", &["1.20.4"], "1.20", Some("d"), 4.0, &[]),
        plugin(4, "Worse", "Admin", &[], "1.8.8", None, 1.0, &[]),
    ];
    let alts = a.find_compatible_alternatives(&target, &all);
    assert_eq!(alts.len(), 1);
    assert_eq!(alts[0].name, "Better");
}
