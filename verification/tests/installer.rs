use mcpanel::plugins::installer::{extract_name_from_filename, extract_version_from_filename, file_matches_plugin};

#[test]
fn installer_versions_from_file_names() {
    assert_eq!(extract_version_from_filename("EssentialsX-2.20.1.jar"), "2.20.1");
    assert_eq!(extract_version_from_filename("WorldEdit.jar"), "1.0.0");
    assert_eq!(extract_version_from_filename("plugin-v1.2.3-beta.jar"), "1.2.3");
    assert_eq!(extract_version_from_filename("x10.20.30.40.jar"), "10.20.30");
    assert_eq!(extract_version_from_filename("odd-1.2.jar"), "1.0.0");
    assert_eq!(extract_version_from_filename("v.1.2.3"), "1.2.3");
}

#[test]
fn installer_names_from_file_names() {
    assert_eq!(extract_name_from_filename("EssentialsX-2.20.1.jar"), "EssentialsX");
    assert_eq!(extract_name_from_filename("LuckPerms-Bukkit-5.4.102.jar"), "LuckPerms-Bukkit");
    assert_eq!(extract_name_from_filename("my_plugin_v1.0.0_1.2.3.JAR"), "my_plugin");
    assert_eq!(extract_name_from_filename("  --Vault--  "), "Vault");
    assert_eq!(extract_name_from_filename("---"), "");
    assert_eq!(extract_name_from_filename("a.jar.jar"), "a");
}

#[test]
fn installer_file_matches_plugin() {
    assert!(file_matches_plugin("EssentialsX-2.20.1.jar", "essentialsx"));
    assert!(file_matches_plugin("WORLDEDIT.JAR", "WorldEdit"));
    assert!(!file_matches_plugin("Vault.jar", "LuckPerms"));
    assert!(file_matches_plugin("anything.jar", ""));
}

#[test]
fn installer_directories_and_paths() {
    let p = mcpanel::plugins::installer::PluginInstaller::new("/srv/plugins".to_string());
    assert_eq!(p.plugins_dir(), "/srv/plugins");
    assert_eq!(p.backups_dir(), "/srv/plugins/backups");
    assert_eq!(p.cache_path("Vault", "1.7.3"), "/srv/plugins/cache/Vault-1.7.3.jar");
    assert_eq!(p.calculate_checksum(b"abc").len(), 64);
}
