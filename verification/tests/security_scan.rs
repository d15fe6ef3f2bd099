use mcpanel::security::security_scan::{CheckStatus, SecurityCategory, SecurityScanner, Severity};

#[test]
fn default_baselines_tally() {
    let mut s = SecurityScanner::new();
    s.init_default_baselines();
    assert_eq!(s.get_baselines().len(), 12);
    let t = s.tally_scan();
    assert_eq!(t.total_checks, 12);
    assert_eq!(t.passed, 8);
    assert_eq!(t.failed, 1);
    assert_eq!(t.warnings, 3);
    assert_eq!(t.errors, 0);
    assert_eq!(t.critical_findings.len(), 1);
    assert_eq!(t.critical_findings[0].baseline_id, "baseline-002");
    assert_eq!(t.recommendations.len(), 4);
    assert!(t.recommendations[0].starts_with("【严重】"));
    assert!(t.recommendations[1].starts_with("【警告】"));
}

#[test]
fn finish_scan_keeps_report() {
    let mut s = SecurityScanner::new();
    s.init_default_baselines();
    let t = s.tally_scan();
    let percents: Vec<u32> = (0..t.categories.len()).map(|i| 50 + i as u32).collect();
    let checked: Vec<bool> = t.categories.iter().map(|c| c.checks_total > 0).collect();
    let r = s.finish_scan(t, 66, percents);
    assert_eq!(r.overall_score, 66);
    for (i, c) in r.category_scores.iter().enumerate() {
        assert_eq!(c.score, if checked[i] { 50 + i as u32 } else { 0 });
    }
    assert_eq!(r.passed, 8);
    assert_eq!(s.get_reports().len(), 1);
    assert_eq!(s.get_latest_report().unwrap().id, r.id);
    let st = s.get_stats();
    assert_eq!(st.total_scans, 1);
}

#[test]
fn empty_scan_scores_full_marks() {
    let mut s = SecurityScanner::new();
    let ids: Vec<String> = s.get_baselines().into_iter().map(|b| b.id).collect();
    for id in &ids {
        s.enable_baseline(id, false).unwrap();
    }
    let t = s.tally_scan();
    assert_eq!(t.total_checks, 0);
    let r = s.finish_scan(t, 0, vec![]);
    assert_eq!(r.overall_score, 100);
}

#[test]
fn disabling_a_baseline_removes_it_from_the_tally() {
    let mut s = SecurityScanner::new();
    s.init_default_baselines();
    s.enable_baseline("baseline-002", false).unwrap();
    let t = s.tally_scan();
    assert_eq!(t.total_checks, 11);
    assert_eq!(t.failed, 0);
    assert!(t.critical_findings.is_empty());
    assert!(s.enable_baseline("missing", true).is_err());
}

#[test]
fn names_and_scores() {
    assert_eq!(SecurityCategory::Network.display_name(), "网络安全");
    assert_eq!(Severity::High.score(), 75);
    assert_eq!(Severity::Info.score(), 0);
    assert_ne!(CheckStatus::Pass, CheckStatus::Fail);
}
