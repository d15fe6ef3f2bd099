use mcpanel::plugins::repository::{RepositoryManager, RepositoryType, RepositoryUpdates, SyncState};

#[test]
fn default_repositories_only_when_empty() {
    let mut m = RepositoryManager::new("repos".to_string());
    assert!(m.setup_default_repositories_at(7));
    let all = m.get_repositories();
    let names: Vec<String> = all.iter().map(|r| r.name.clone()).collect();
    assert_eq!(names, vec!["SpigotMC".to_string(), "Bukkit".to_string(), "PaperMC".to_string()]);
    assert_eq!(all[0].plugins_count, 50000);
    assert_eq!(all[0].last_sync, Some(7));
    assert_eq!(all[0].metadata[0], ("api_endpoint".to_string(), "/resources/items".to_string()));
    assert!(!m.setup_default_repositories_at(8));
    assert_eq!(m.get_repositories().len(), 3);
}

#[test]
fn added_repositories_sort_by_priority() {
    let mut m = RepositoryManager::new("repos".to_string());
    let custom = m.add_repository("Mine".to_string(), "https://x.example".to_string(), RepositoryType::Custom, Some("tok".to_string())).unwrap();
    assert_eq!(custom.priority, 10);
    assert!(custom.auth_required);
    assert_eq!(custom.metadata, vec![("custom_url".to_string(), "https://x.example".to_string())]);
    assert!(!m.setup_default_repositories_at(1));
    let open = m.add_repository("Open".to_string(), "u".to_string(), RepositoryType::GitHub, None).unwrap();
    assert!(!open.auth_required);
    let up = m.update_repository(&open.id, RepositoryUpdates { name: Some("First".to_string()), enabled: Some(false), priority: Some(1), auth_token: Some("t".to_string()) }).unwrap();
    assert_eq!(up.name, "First");
    assert!(!up.enabled);
    assert!(up.auth_required);
    assert_eq!(up.auth_token, Some("t".to_string()));
    let order: Vec<String> = m.get_repositories().iter().map(|r| r.name.clone()).collect();
    assert_eq!(order, vec!["First".to_string(), "Mine".to_string()]);
    let wrapped = m.update_repository(&custom.id, RepositoryUpdates { name: None, enabled: None, priority: Some(4_294_967_297), auth_token: None }).unwrap();
    assert_eq!(wrapped.priority, 1);
    assert_eq!(wrapped.name, "Mine");
    let missing = m.update_repository("nope", RepositoryUpdates { name: None, enabled: None, priority: None, auth_token: None });
    assert_eq!(missing.err(), Some("Repository not found".to_string()));
    assert!(m.delete_repository(&custom.id).is_ok());
    assert!(m.get_repository(&custom.id).is_none());
}

#[test]
fn sync_reports_counts_by_kind() {
    let mut m = RepositoryManager::new("repos".to_string());
    let r = m.add_repository("J".to_string(), "u".to_string(), RepositoryType::Jenkins, None).unwrap();
    let st = m.sync_repository_at(&r.id, 42).unwrap();
    assert_eq!(st.status, SyncState::Success);
    assert_eq!(st.plugins_count, 5000);
    assert_eq!(st.last_sync, Some(42));
    let bad = m.sync_repository_at("ghost", 43).unwrap();
    assert_eq!(bad.status, SyncState::Failed);
    assert_eq!(bad.error, Some("Repository not found".to_string()));
    assert_eq!(m.get_sync_status("ghost").unwrap().status, SyncState::Failed);
    assert!(m.get_sync_status("other").is_none());
}

#[test]
fn search_offers_an_example() {
    let mut m = RepositoryManager::new("repos".to_string());
    let r = m.add_repository("P".to_string(), "u".to_string(), RepositoryType::Paper, None).unwrap();
    let found = m.search_in_repository_at(&r.id, "chat", 3).unwrap();
    assert_eq!(found.len(), 1);
    assert_eq!(found[0].name, "Example Plugin for chat");
    assert_eq!(f64::from_bits(found[0].stats.average_rating_bits), 4.5);
    assert_eq!(f64::from_bits(found[0].compatibility.compatibility_score_bits), 85.0);
    assert_eq!(m.search_in_repository_at("none", "chat", 3).err(), Some("Repository not found".to_string()));
}
