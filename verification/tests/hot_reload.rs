use mcpanel::plugins::hot_reload::{execute_reload, HotReloadManager, JobStatus, ReloadJob, ReloadType};

fn pending(plugin: &str, t: ReloadType) -> ReloadJob {
    ReloadJob {
        job_id: "j".to_string(),
        plugin_id: plugin.to_string(),
        reload_type: t,
        status: JobStatus::Pending,
        started_at: 10,
        completed_at: None,
        result: None,
        errors: vec![],
    }
}

#[test]
fn reload_without_rcon_fails() {
    let j = execute_reload(pending("vault", ReloadType::Full), ReloadType::Full, false, true, 5, 20);
    assert_eq!(j.status, JobStatus::Failed);
    assert_eq!(j.errors, vec!["RCON not available for hot reload".to_string()]);
    assert_eq!(j.completed_at, Some(20));
    assert!(j.result.is_none());
}

#[test]
fn config_reload_warns_without_config_file() {
    let j = execute_reload(pending("vault", ReloadType::Config), ReloadType::Config, true, false, 7, 20);
    assert_eq!(j.status, JobStatus::Completed);
    let r = j.result.unwrap();
    assert!(r.success);
    assert_eq!(r.reload_time_ms, 7);
    assert_eq!(r.changes_applied, vec!["Configuration reloaded".to_string()]);
    assert_eq!(r.warnings, vec!["Config file not found, using defaults".to_string()]);
    let j = execute_reload(pending("vault", ReloadType::Full), ReloadType::Full, true, false, 0, 20);
    let r = j.result.unwrap();
    assert_eq!(r.changes_applied.len(), 4);
    assert!(r.warnings.is_empty());
}

#[test]
fn manager_records_jobs_and_history_newest_first() {
    let mut m = HotReloadManager::new("plugins".to_string());
    assert_eq!(m.plugins_dir(), "plugins");
    let a = m.reload_plugin_at("vault", ReloadType::Full, true, 100, 110).unwrap();
    assert_eq!(a.status, JobStatus::Failed);
    m.set_rcon_status(true);
    let b = m.reload_plugin_at("vault", ReloadType::Data, true, 300, 305).unwrap();
    assert_eq!(b.status, JobStatus::Completed);
    assert_eq!(b.result.as_ref().unwrap().reload_time_ms, 5);
    let c = m.reload_plugin_at("vault", ReloadType::Commands, true, 200, 200).unwrap();
    m.reload_plugin_at("other", ReloadType::Config, true, 400, 401).unwrap();
    let h = m.get_plugin_reload_history("vault");
    let ids: Vec<&str> = h.iter().map(|j| j.job_id.as_str()).collect();
    assert_eq!(ids, vec![b.job_id.as_str(), c.job_id.as_str(), a.job_id.as_str()]);
    assert_eq!(m.get_reload_job(&a.job_id).unwrap().started_at, 100);
    assert!(m.get_reload_job("missing").is_none());
}

#[test]
fn cleanup_drops_jobs_finished_before_cutoff() {
    let mut m = HotReloadManager::new("p".to_string());
    m.set_rcon_status(true);
    let old = m.reload_plugin_at("a", ReloadType::Full, true, 1_000, 1_000).unwrap();
    let new = m.reload_plugin_at("a", ReloadType::Full, true, 9_000_000, 9_000_000).unwrap();
    let removed = m.cleanup_old_jobs_at(1, 5_000_000);
    assert_eq!(removed, 1);
    assert!(m.get_reload_job(&old.job_id).is_none());
    assert!(m.get_reload_job(&new.job_id).is_some());
    m.cancel_reload_at(&new.job_id, 9_000_001).unwrap();
    assert_eq!(m.get_reload_job(&new.job_id).unwrap().status, JobStatus::Completed);
}

#[test]
fn supported_reloads() {
    let m = HotReloadManager::new("p".to_string());
    assert!(m.detect_reload_support("LuckPerms-Bukkit"));
    assert!(!m.detect_reload_support("MyPlugin"));
    assert_eq!(
        m.get_safe_reload_methods("LuckPerms"),
        vec![ReloadType::Full, ReloadType::Config, ReloadType::Permissions, ReloadType::Commands]
    );
    assert_eq!(m.get_safe_reload_methods("prism"), vec![ReloadType::Config, ReloadType::Data]);
    assert_eq!(m.validate_reload("MyPlugin", ReloadType::Full).err().unwrap(), "Plugin MyPlugin may not support hot reload");
    assert_eq!(
        m.validate_reload("vault", ReloadType::Permissions).err().unwrap(),
        "Reload type Permissions not supported by vault"
    );
    assert_eq!(m.validate_reload("coreprotect", ReloadType::Data), Ok(()));
    assert_eq!(m.validate_reload("worldedit", ReloadType::Data).err().unwrap(), "Reload type Data not supported by worldedit");
}
