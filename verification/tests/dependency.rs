use mcpanel::plugins::dependency::{major_version, DependencyResolver};
use mcpanel::plugins::types::{
    ConflictSeverity, ConflictType, InstalledPlugin, Plugin, PluginCompatibility, PluginDependency, PluginStats,
};

fn candidate(name: &str, version: &str, supported: &[&str]) -> Plugin {
    Plugin {
        id: format!("{}-id", name),
        name: name.to_string(),
        plugin_id: 1,
        version: version.to_string(),
        file_id: 1,
        download_url: String::new(),
        file_name: format!("{}.jar", name),
        file_size: 0,
        upload_date: 0,
        description: None,
        authors: vec![],
        category: "misc".to_string(),
        tags: vec![],
        source_url: None,
        issue_tracker: None,
        website: None,
        supported_versions: supported.iter().map(|s| s.to_string()).collect(),
        stats: PluginStats { downloads: 0, likes: 0, reviews_count: 0, average_rating_bits: 4.0f64.to_bits() },
        compatibility: PluginCompatibility {
            compatibility_score_bits: 0,
            server_version: "1.20".to_string(),
            api_version: "1.20".to_string(),
            known_issues: vec![],
            verified: false,
        },
        is_premium: false,
        price_bits: None,
    }
}

fn installed(id: &str, name: &str, version: &str, supported: &[&str], deps: Vec<PluginDependency>) -> InstalledPlugin {
    InstalledPlugin {
        id: id.to_string(),
        plugin_id: id.to_string(),
        name: name.to_string(),
        version: version.to_string(),
        file_name: format!("{}.jar", name),
        install_date: 0,
        last_updated: 0,
        enabled: true,
        dependencies: deps,
        supported_versions: supported.iter().map(|s| s.to_string()).collect(),
    }
}

fn dep(name: &str, version: &str, required: bool, version_match: bool) -> PluginDependency {
    PluginDependency { name: name.to_string(), version: version.to_string(), required, installed: true, version_match }
}

#[test]
fn major_version_is_text_before_first_dot() {
    assert_eq!(major_version("7.2.15"), "7");
    assert_eq!(major_version("12"), "12");
    assert_eq!(major_version(".5"), "");
}

#[test]
fn empty_resolver_reports_nothing() {
    let r = DependencyResolver::new();
    assert!(r.check_conflicts(&candidate("WorldEdit", "7.0", &["1.20"])).is_empty());
    assert!(r.get_all_conflicts().is_empty());
    assert!(r.get_compatibility_matrix().is_empty());
}

#[test]
fn version_clash_with_installed_copy() {
    let mut r = DependencyResolver::new();
    r.register_plugin(installed("a", "WorldEdit", "6.1", &["1.20"], vec![]));
    let cs = r.check_conflicts(&candidate("worldedit", "7.2", &["1.20"]));
    assert_eq!(cs.len(), 1);
    assert_eq!(cs[0].conflict_type, ConflictType::Version);
    assert_eq!(cs[0].severity, ConflictSeverity::Critical);
    assert_eq!(cs[0].description, "Version mismatch: installed 6.1 but trying to install 7.2");
    assert_eq!(cs[0].resolution, "Either keep version 6.1 or uninstall current version first");
    assert!(r.check_conflicts(&candidate("worldedit", "6.9", &["1.20"])).is_empty());
}

#[test]
fn dependency_and_api_clashes() {
    let mut r = DependencyResolver::new();
    r.register_plugin(installed("a", "WorldGuard", "7.0", &["1.19", "1.19"], vec![dep("WorldEdit", "7.x", true, false)]));
    let cs = r.check_conflicts(&candidate("worldedit", "6.0", &["1.20"]));
    assert_eq!(cs.len(), 2);
    assert_eq!(cs[0].conflict_type, ConflictType::HardDependency);
    assert_eq!(cs[0].severity, ConflictSeverity::Critical);
    assert_eq!(cs[0].description, "Hard dependency conflict: WorldGuard requires worldedit version 7.x but found 6.0");
    assert_eq!(cs[0].resolution, "Install a compatible version of worldedit (required: 7.x)");
    assert_eq!(cs[1].conflict_type, ConflictType::ApiIncompatibility);
    assert_eq!(cs[1].description, "No common API versions: WorldGuard supports {\"1.19\"} but worldedit supports {\"1.20\"}");
}

#[test]
fn command_and_lookalike_clashes() {
    let mut r = DependencyResolver::new();
    r.register_plugin(installed("a", "CoreProtect", "1.0", &["1.20"], vec![]));
    r.register_plugin(installed("b", "FAWE", "2.0", &["1.20"], vec![]));
    let cs = r.check_conflicts(&candidate("Prism", "3.0", &["1.20"]));
    assert_eq!(cs.len(), 1);
    assert_eq!(cs[0].conflict_type, ConflictType::CommandConflict);
    assert_eq!(cs[0].description, "CoreProtect and Prism are known to have command conflicts");
    let cs = r.check_conflicts(&candidate("WorldEdit", "7.0", &["1.20"]));
    assert_eq!(cs.len(), 1);
    assert_eq!(cs[0].conflict_type, ConflictType::ResourceConflict);
    assert_eq!(cs[0].description, "These plugins provide similar functionality: FAWE vs WorldEdit");
}

#[test]
fn resolve_dependencies_marks_installed() {
    let mut r = DependencyResolver::new();
    r.register_plugin(installed("a", "LuckPerms", "5.0", &["1.20"], vec![]));
    let ds = r.resolve_dependencies(&candidate("Vault", "1.7", &["1.20"]));
    let names: Vec<&str> = ds.iter().map(|d| d.name.as_str()).collect();
    assert_eq!(names, vec!["permissionsex", "luckperms", "groupmanager"]);
    assert!(!ds[0].installed);
    assert!(ds[1].installed);
    assert!(ds.iter().all(|d| d.required && d.version == "*" && d.version_match));
    assert!(r.resolve_dependencies(&candidate("Skript", "1.0", &[])).is_empty());
}

#[test]
fn pair_conflicts_and_matrix() {
    let mut r = DependencyResolver::new();
    r.register_plugin(installed("a", "Alpha", "1.0", &["1.20"], vec![dep("beta", "2", true, false)]));
    r.register_plugin(installed("b", "Beta", "1.0", &["1.20"], vec![]));
    let all = r.get_all_conflicts();
    assert_eq!(all.len(), 1);
    assert_eq!(all[0].description, "Version mismatch between Alpha and Beta");
    assert_eq!(all[0].severity, ConflictSeverity::High);
    let m = r.get_compatibility_matrix();
    assert_eq!(m, vec![vec!["SELF", "CONFLICT"], vec!["CONFLICT", "SELF"]]);
}

#[test]
fn unregister_removes_plugin_and_its_dependencies() {
    let mut r = DependencyResolver::new();
    r.register_plugin(installed("a", "Alpha", "1.0", &["1.20"], vec![dep("beta", "2", true, false)]));
    r.register_plugin(installed("b", "Beta", "1.0", &["1.20"], vec![]));
    let p = r.unregister_plugin("a").unwrap();
    assert_eq!(p.name, "Alpha");
    assert!(r.unregister_plugin("a").is_none());
    assert!(r.get_all_conflicts().is_empty());
}
