use mcpanel::plugins::batch::{BatchManager, BatchOperationType, BatchStatus, FULL_PROGRESS_BITS};
use mcpanel::plugins::types::{Plugin, PluginCompatibility, PluginStats};

fn plugin(id: i64) -> Plugin {
    Plugin {
        id: format!("p{}", id),
        name: format!("Plugin{}", id),
        plugin_id: id,
        version: "1.0".to_string(),
        file_id: 1,
        download_url: String::new(),
        file_name: String::new(),
        file_size: 0,
        upload_date: 0,
        description: None,
        authors: vec![],
        category: "misc".to_string(),
        tags: vec![],
        source_url: None,
        issue_tracker: None,
        website: None,
        supported_versions: vec![],
        stats: PluginStats { downloads: 0, likes: 0, reviews_count: 0, average_rating_bits: 0 },
        compatibility: PluginCompatibility {
            compatibility_score_bits: 0,
            server_version: String::new(),
            api_version: String::new(),
            known_issues: vec![],
            verified: false,
        },
        is_premium: false,
        price_bits: None,
    }
}

#[test]
fn new_batch_is_pending() {
    let mut m = BatchManager::new(4);
    assert_eq!(m.max_concurrent(), 4);
    let op = m.start_batch_operation_at(BatchOperationType::Enable, vec!["a".to_string(), "b".to_string()], 100).unwrap();
    assert_eq!(op.status, BatchStatus::Pending);
    assert_eq!(op.operation_id.len(), 36);
    assert_eq!(op.started_at, 100);
    assert_eq!(f64::from_bits(op.progress_bits), 0.0);
    assert!(op.results.is_empty());
    let got = m.get_operation_status(&op.operation_id).unwrap();
    assert_eq!(got.plugins, vec!["a".to_string(), "b".to_string()]);
}

#[test]
fn enabling_plugins_completes_the_batch() {
    let mut m = BatchManager::new(2);
    let op = m.start_batch_operation_at(BatchOperationType::Enable, vec![], 1).unwrap();
    let done = m.execute_batch_enable_at(&op.operation_id, vec!["x".to_string(), "y".to_string()], 9).unwrap();
    assert_eq!(done.status, BatchStatus::Completed);
    assert_eq!(done.results.len(), 2);
    assert_eq!(done.results[0].plugin_id, "x");
    assert_eq!(done.results[1].message, "Enabled");
    assert!(done.results.iter().all(|r| r.success));
    assert_eq!(done.progress_bits, FULL_PROGRESS_BITS);
    assert_eq!(f64::from_bits(done.progress_bits), 100.0);
    assert_eq!(done.completed_at, Some(9));
}

#[test]
fn install_reports_numeric_ids() {
    let mut m = BatchManager::new(2);
    let op = m.start_batch_operation_at(BatchOperationType::Install, vec![], 1).unwrap();
    let done = m.execute_batch_install_at(&op.operation_id, vec![(plugin(9089), true), (plugin(-5), false)], 3).unwrap();
    assert_eq!(done.results[0].plugin_id, "9089");
    assert_eq!(done.results[1].plugin_id, "-5");
    assert_eq!(done.results[0].message, "Success");
    assert_eq!(done.status, BatchStatus::Completed);
}

#[test]
fn other_batch_kinds_use_their_messages() {
    let mut m = BatchManager::new(2);
    let op = m.start_batch_operation_at(BatchOperationType::Update, vec![], 1).unwrap();
    let u = m.execute_batch_update_at(&op.operation_id, vec![("abc".to_string(), plugin(1))], 2).unwrap();
    assert_eq!(u.results[0].message, "Updated");
    let d = m.execute_batch_disable_at(&op.operation_id, vec!["q".to_string()], 3).unwrap();
    assert_eq!(d.results.len(), 2);
    assert_eq!(d.results[1].message, "Disabled");
    let r = m.execute_batch_uninstall_at(&op.operation_id, vec!["z".to_string()], true, 4).unwrap();
    assert_eq!(r.results[2].message, "Uninstalled");
}

#[test]
fn empty_batch_keeps_zero_progress() {
    let mut m = BatchManager::new(1);
    let op = m.start_batch_operation_at(BatchOperationType::Disable, vec![], 1).unwrap();
    let done = m.execute_batch_disable_at(&op.operation_id, vec![], 2).unwrap();
    assert_eq!(done.status, BatchStatus::Completed);
    assert_eq!(done.progress_bits, 0);
}

#[test]
fn unknown_operation_is_an_error() {
    let mut m = BatchManager::new(1);
    let r = m.execute_batch_enable_at("nope", vec!["a".to_string()], 2);
    assert_eq!(r.err(), Some("Operation not found".to_string()));
}

#[test]
fn cancel_pending_and_finished() {
    let mut m = BatchManager::new(1);
    let a = m.start_batch_operation_at(BatchOperationType::Reload, vec![], 1).unwrap();
    assert!(m.cancel_operation_at(&a.operation_id, 5).is_ok());
    let got = m.get_operation_status(&a.operation_id).unwrap();
    assert_eq!(got.status, BatchStatus::Cancelled);
    assert_eq!(got.completed_at, Some(5));
    let b = m.start_batch_operation_at(BatchOperationType::Enable, vec![], 2).unwrap();
    m.execute_batch_enable_at(&b.operation_id, vec![], 3).unwrap();
    assert!(m.cancel_operation_at(&b.operation_id, 6).is_ok());
    let got = m.get_operation_status(&b.operation_id).unwrap();
    assert_eq!(got.status, BatchStatus::Completed);
    assert!(m.cancel_operation_at("missing", 7).is_ok());
}

#[test]
fn all_operations_newest_first() {
    let mut m = BatchManager::new(1);
    m.start_batch_operation_at(BatchOperationType::Enable, vec![], 20).unwrap();
    m.start_batch_operation_at(BatchOperationType::Enable, vec![], 50).unwrap();
    m.start_batch_operation_at(BatchOperationType::Enable, vec![], 10).unwrap();
    let all = m.get_all_operations();
    let starts: Vec<u64> = all.iter().map(|o| o.started_at).collect();
    assert_eq!(starts, vec![50, 20, 10]);
}

#[test]
fn cleanup_drops_old_finished_operations() {
    let hour = 3_600_000u64;
    let mut m = BatchManager::new(1);
    let old = m.start_batch_operation_at(BatchOperationType::Enable, vec![], 0).unwrap();
    m.execute_batch_enable_at(&old.operation_id, vec![], hour).unwrap();
    let recent = m.start_batch_operation_at(BatchOperationType::Enable, vec![], 0).unwrap();
    m.execute_batch_enable_at(&recent.operation_id, vec![], 10 * hour).unwrap();
    let open = m.start_batch_operation_at(BatchOperationType::Enable, vec![], 0).unwrap();
    let removed = m.cleanup_completed_operations_at(5, 12 * hour);
    assert_eq!(removed, 1);
    assert!(m.get_operation_status(&old.operation_id).is_none());
    assert!(m.get_operation_status(&recent.operation_id).is_some());
    assert!(m.get_operation_status(&open.operation_id).is_some());
}
