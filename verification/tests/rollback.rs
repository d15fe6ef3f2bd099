use mcpanel::plugins::rollback::{join, PluginBackup, RollbackManager};
use mcpanel::plugins::types::InstalledPlugin;

fn installed(name: &str, version: &str) -> InstalledPlugin {
    InstalledPlugin {
        id: "inst-1".to_string(),
        plugin_id: "essentials".to_string(),
        name: name.to_string(),
        version: version.to_string(),
        file_name: format!("{}.jar", name),
        install_date: 0,
        last_updated: 0,
        enabled: true,
        dependencies: vec![],
        supported_versions: vec![],
    }
}

fn backup(id: &str, plugin_id: &str, date: u64) -> PluginBackup {
    PluginBackup {
        id: id.to_string(),
        plugin_id: plugin_id.to_string(),
        version: "1.0".to_string(),
        backup_date: date,
        file_path: format!("/b/{}.jar", id),
        file_size: 10,
        config_included: false,
        checksum: "abc".to_string(),
        reason: "update".to_string(),
    }
}

#[test]
fn paths_are_joined_with_one_separator() {
    assert_eq!(join("plugins", "backups"), "plugins/backups");
    assert_eq!(join("plugins/", "backups"), "plugins/backups");
    assert_eq!(join("", "backups"), "backups");
    let m = RollbackManager::new("/srv/plugins".to_string());
    assert_eq!(m.backups_dir(), "/srv/plugins/backups");
    assert_eq!(m.plugins_dir(), "/srv/plugins");
    assert_eq!(m.plugin_path(&installed("Essentials X", "2.20.1")), "/srv/plugins/Essentials X.jar");
}

#[test]
fn backup_file_names() {
    let m = RollbackManager::new("/srv/plugins".to_string());
    let p = installed("Essentials X", "2.20.1");
    let id = "0123456789abcdef-rest";
    assert_eq!(m.backup_path(&p, id), "/srv/plugins/backups/Essentials_X-2_20_1-01234567.jar");
    assert_eq!(m.emergency_path("essentials", id), "/srv/plugins/backups/emergency-essentials-01234567.jar");
    assert_eq!(m.metadata_path("b1"), "/srv/plugins/backups/b1.json");
    assert_eq!(m.get_plugin_jar_name("Vault").unwrap(), "Vault.jar");
}

#[test]
fn backup_record_and_owner_check() {
    let m = RollbackManager::new("p".to_string());
    let b = m.backup_record("b1".to_string(), &installed("X", "1.2"), 77, "p/backups/x.jar".to_string(), 123, "ff".to_string(), "manual");
    assert_eq!(b.plugin_id, "inst-1");
    assert_eq!(b.version, "1.2");
    assert_eq!(b.backup_date, 77);
    assert!(!b.config_included);
    assert_eq!(b.reason, "manual");
    assert!(m.check_backup_owner(&b, "inst-1").is_ok());
    assert_eq!(m.check_backup_owner(&b, "other").err(), Some("Backup does not match plugin ID".to_string()));
    assert!(m.checksum_matches(&b, "ff"));
    assert!(!m.checksum_matches(&b, "fe"));
}

#[test]
fn restored_plugin_is_enabled() {
    let m = RollbackManager::new("p".to_string());
    let r = m.restored_plugin("inst-9", &backup("b", "vault", 55), 99);
    assert_eq!(r.id, "inst-9");
    assert_eq!(r.name, "vault");
    assert_eq!(r.file_name, "vault.jar");
    assert_eq!(r.install_date, 55);
    assert_eq!(r.last_updated, 99);
    assert!(r.enabled);
}

#[test]
fn plugin_files_by_extension_and_name() {
    let m = RollbackManager::new("p".to_string());
    assert!(m.is_plugin_file("Vault-1.7.jar", Some("jar"), "vault"));
    assert!(m.is_plugin_file("vault.yml", Some("yml"), "Vault"));
    assert!(!m.is_plugin_file("vault.txt", Some("txt"), "vault"));
    assert!(!m.is_plugin_file("other.jar", Some("jar"), "vault"));
    assert!(!m.is_plugin_file("vault", None, "vault"));
}

#[test]
fn backups_newest_first_and_cleanup() {
    let m = RollbackManager::new("p".to_string());
    let all = vec![backup("a", "x", 10), backup("b", "y", 30), backup("c", "x", 20), backup("d", "x", 5)];
    let xs: Vec<String> = m.backups_for(&all, "x").into_iter().map(|b| b.id).collect();
    assert_eq!(xs, vec!["c".to_string(), "a".to_string(), "d".to_string()]);
    assert_eq!(m.backups_to_delete(&all, 2), vec!["a".to_string(), "d".to_string()]);
    assert!(m.backups_to_delete(&all, 4).is_empty());
    assert!(m.backups_to_delete(&all, 10).is_empty());
}

#[test]
fn checksums_are_sha256_in_hex() {
    let m = RollbackManager::new("p".to_string());
    assert_eq!(m.calculate_checksum(b"abc"), "ba7816bf8f01cfea414140de5dae2223b00361a396177a9cb410ff61f20015ad");
    assert_eq!(m.calculate_checksum(b""), "e3b0c44298fc1c149afbf4c8996fb92427ae41e4649b934ca495991b7852b855");
}
