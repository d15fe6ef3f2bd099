//! Plugin records: marketplace entries, installed plugins, their dependencies,
//! and conflicts between plugins. Times are milliseconds since the epoch;
//! ratings, scores and prices are carried as IEEE double bit patterns.
use vstd::prelude::*;
use crate::keyed::Keyed;
use crate::text::{opt_view, copy_opt_string, copy_strings, strings_view};
use crate::dup::{Duplicate, views, dup_vec};

verus! {

/// Download and review counts of a marketplace plugin.
#[derive(Clone, Copy, PartialEq, Eq, Structural, Debug)]
pub struct PluginStats {
    pub downloads: i64,
    pub likes: i64,
    pub reviews_count: i64,
    pub average_rating_bits: u64,
}

/// How well a plugin suits the server.
pub struct PluginCompatibility {
    pub compatibility_score_bits: u64,
    pub server_version: String,
    pub api_version: String,
    pub known_issues: Vec<String>,
    pub verified: bool,
}

/// A plugin offered by a marketplace.
pub struct Plugin {
    pub id: String,
    pub name: String,
    pub plugin_id: i64,
    pub version: String,
    pub file_id: i64,
    pub download_url: String,
    pub file_name: String,
    pub file_size: i64,
    pub upload_date: u64,
    pub description: Option<String>,
    pub authors: Vec<String>,
    pub category: String,
    pub tags: Vec<String>,
    pub source_url: Option<String>,
    pub issue_tracker: Option<String>,
    pub website: Option<String>,
    pub supported_versions: Vec<String>,
    pub stats: PluginStats,
    pub compatibility: PluginCompatibility,
    pub is_premium: bool,
    pub price_bits: Option<u64>,
}

/// The plain content of a compatibility assessment.
pub struct CompatibilityView {
    pub compatibility_score_bits: u64,
    pub server_version: Seq<char>,
    pub api_version: Seq<char>,
    pub known_issues: Seq<Seq<char>>,
    pub verified: bool,
}

impl View for PluginCompatibility {
    type V = CompatibilityView;

    open spec fn view(&self) -> CompatibilityView {
        CompatibilityView {
            compatibility_score_bits: self.compatibility_score_bits,
            server_version: self.server_version@,
            api_version: self.api_version@,
            known_issues: strings_view(self.known_issues@),
            verified: self.verified,
        }
    }
}

impl Duplicate for PluginCompatibility {
    fn dup(&self) -> (r: PluginCompatibility) {
        let issues = copy_strings(&self.known_issues);
        assert(strings_view(issues@) == strings_view(self.known_issues@));
        PluginCompatibility {
            compatibility_score_bits: self.compatibility_score_bits,
            server_version: self.server_version.clone(),
            api_version: self.api_version.clone(),
            known_issues: issues,
            verified: self.verified,
        }
    }
}

/// The plain content of a marketplace plugin.
pub struct PluginView {
    pub id: Seq<char>,
    pub name: Seq<char>,
    pub plugin_id: i64,
    pub version: Seq<char>,
    pub file_id: i64,
    pub download_url: Seq<char>,
    pub file_name: Seq<char>,
    pub file_size: i64,
    pub upload_date: u64,
    pub description: Option<Seq<char>>,
    pub authors: Seq<Seq<char>>,
    pub category: Seq<char>,
    pub tags: Seq<Seq<char>>,
    pub source_url: Option<Seq<char>>,
    pub issue_tracker: Option<Seq<char>>,
    pub website: Option<Seq<char>>,
    pub supported_versions: Seq<Seq<char>>,
    pub stats: PluginStats,
    pub compatibility: CompatibilityView,
    pub is_premium: bool,
    pub price_bits: Option<u64>,
}

impl View for Plugin {
    type V = PluginView;

    open spec fn view(&self) -> PluginView {
        PluginView {
            id: self.id@,
            name: self.name@,
            plugin_id: self.plugin_id,
            version: self.version@,
            file_id: self.file_id,
            download_url: self.download_url@,
            file_name: self.file_name@,
            file_size: self.file_size,
            upload_date: self.upload_date,
            description: opt_view(self.description),
            authors: strings_view(self.authors@),
            category: self.category@,
            tags: strings_view(self.tags@),
            source_url: opt_view(self.source_url),
            issue_tracker: opt_view(self.issue_tracker),
            website: opt_view(self.website),
            supported_versions: strings_view(self.supported_versions@),
            stats: self.stats,
            compatibility: self.compatibility@,
            is_premium: self.is_premium,
            price_bits: self.price_bits,
        }
    }
}

impl Duplicate for Plugin {
    fn dup(&self) -> (r: Plugin) {
        let authors = copy_strings(&self.authors);
        let tags = copy_strings(&self.tags);
        let supported_versions = copy_strings(&self.supported_versions);
        assert(strings_view(authors@) == strings_view(self.authors@));
        assert(strings_view(tags@) == strings_view(self.tags@));
        assert(strings_view(supported_versions@) == strings_view(self.supported_versions@));
        Plugin {
            id: self.id.clone(),
            name: self.name.clone(),
            plugin_id: self.plugin_id,
            version: self.version.clone(),
            file_id: self.file_id,
            download_url: self.download_url.clone(),
            file_name: self.file_name.clone(),
            file_size: self.file_size,
            upload_date: self.upload_date,
            description: copy_opt_string(&self.description),
            authors,
            category: self.category.clone(),
            tags,
            source_url: copy_opt_string(&self.source_url),
            issue_tracker: copy_opt_string(&self.issue_tracker),
            website: copy_opt_string(&self.website),
            supported_versions,
            stats: self.stats,
            compatibility: self.compatibility.dup(),
            is_premium: self.is_premium,
            price_bits: self.price_bits,
        }
    }
}

/// A plugin another plugin needs.
pub struct PluginDependency {
    pub name: String,
    pub version: String,
    pub required: bool,
    pub installed: bool,
    pub version_match: bool,
}

/// The plain content of a dependency.
pub struct DependencyView {
    pub name: Seq<char>,
    pub version: Seq<char>,
    pub required: bool,
    pub installed: bool,
    pub version_match: bool,
}

impl View for PluginDependency {
    type V = DependencyView;

    open spec fn view(&self) -> DependencyView {
        DependencyView {
            name: self.name@,
            version: self.version@,
            required: self.required,
            installed: self.installed,
            version_match: self.version_match,
        }
    }
}

impl Duplicate for PluginDependency {
    fn dup(&self) -> (r: PluginDependency) {
        PluginDependency {
            name: self.name.clone(),
            version: self.version.clone(),
            required: self.required,
            installed: self.installed,
            version_match: self.version_match,
        }
    }
}

/// A plugin installed on the server, with what is known of its dependencies
/// and of the API versions it supports.
pub struct InstalledPlugin {
    pub id: String,
    pub plugin_id: String,
    pub name: String,
    pub version: String,
    pub file_name: String,
    pub install_date: u64,
    pub last_updated: u64,
    pub enabled: bool,
    pub dependencies: Vec<PluginDependency>,
    pub supported_versions: Vec<String>,
}

/// The plain content of an installed plugin.
pub struct InstalledView {
    pub id: Seq<char>,
    pub plugin_id: Seq<char>,
    pub name: Seq<char>,
    pub version: Seq<char>,
    pub file_name: Seq<char>,
    pub install_date: u64,
    pub last_updated: u64,
    pub enabled: bool,
    pub dependencies: Seq<DependencyView>,
    pub supported_versions: Seq<Seq<char>>,
}

impl View for InstalledPlugin {
    type V = InstalledView;

    open spec fn view(&self) -> InstalledView {
        InstalledView {
            id: self.id@,
            plugin_id: self.plugin_id@,
            name: self.name@,
            version: self.version@,
            file_name: self.file_name@,
            install_date: self.install_date,
            last_updated: self.last_updated,
            enabled: self.enabled,
            dependencies: views(self.dependencies@),
            supported_versions: strings_view(self.supported_versions@),
        }
    }
}

impl Duplicate for InstalledPlugin {
    fn dup(&self) -> (r: InstalledPlugin) {
        let sv = copy_strings(&self.supported_versions);
        assert(strings_view(sv@) == strings_view(self.supported_versions@));
        InstalledPlugin {
            id: self.id.clone(),
            plugin_id: self.plugin_id.clone(),
            name: self.name.clone(),
            version: self.version.clone(),
            file_name: self.file_name.clone(),
            install_date: self.install_date,
            last_updated: self.last_updated,
            enabled: self.enabled,
            dependencies: dup_vec(&self.dependencies),
            supported_versions: sv,
        }
    }
}

impl Keyed for InstalledPlugin {
    open spec fn key_view(&self) -> Seq<char> {
        self.id@
    }

    fn key_str(&self) -> (r: &str) {
        self.id.as_str()
    }
}

/// How two plugins clash.
#[derive(Clone, Copy, PartialEq, Eq, Structural, Debug)]
pub enum ConflictType {
    Version,
    HardDependency,
    SoftDependency,
    ResourceConflict,
    CommandConflict,
    PermissionConflict,
    ApiIncompatibility,
}

/// How bad a clash is.
#[derive(Clone, Copy, PartialEq, Eq, Structural, Debug)]
pub enum ConflictSeverity {
    Critical,
    High,
    Medium,
    Low,
}

/// A clash between two plugins, with advice.
pub struct DependencyConflict {
    pub plugin_a: String,
    pub plugin_b: String,
    pub conflict_type: ConflictType,
    pub description: String,
    pub severity: ConflictSeverity,
    pub resolution: String,
}

/// The plain content of a conflict.
pub struct ConflictView {
    pub plugin_a: Seq<char>,
    pub plugin_b: Seq<char>,
    pub conflict_type: ConflictType,
    pub description: Seq<char>,
    pub severity: ConflictSeverity,
    pub resolution: Seq<char>,
}

impl View for DependencyConflict {
    type V = ConflictView;

    open spec fn view(&self) -> ConflictView {
        ConflictView {
            plugin_a: self.plugin_a@,
            plugin_b: self.plugin_b@,
            conflict_type: self.conflict_type,
            description: self.description@,
            severity: self.severity,
            resolution: self.resolution@,
        }
    }
}

/// How a release is labelled.
#[derive(Clone, Copy, PartialEq, Eq, Structural, Debug)]
pub enum ReleaseType {
    Release,
    Beta,
    Alpha,
}

/// How risky a plugin is judged.
#[derive(Clone, Copy, PartialEq, Eq, Structural, Debug)]
pub enum RiskLevel {
    Low,
    Medium,
    High,
    Critical,
}

/// A value a configuration template asks for.
pub struct TemplateVariable {
    pub name: String,
    pub var_type: String,
    pub default_value: String,
    pub description: String,
    pub required: bool,
    pub options: Option<Vec<String>>,
}

/// The plain content of a template variable.
pub struct TemplateVariableView {
    pub name: Seq<char>,
    pub var_type: Seq<char>,
    pub default_value: Seq<char>,
    pub description: Seq<char>,
    pub required: bool,
    pub options: Option<Seq<Seq<char>>>,
}

impl View for TemplateVariable {
    type V = TemplateVariableView;

    open spec fn view(&self) -> TemplateVariableView {
        TemplateVariableView {
            name: self.name@,
            var_type: self.var_type@,
            default_value: self.default_value@,
            description: self.description@,
            required: self.required,
            options: match self.options {
                Some(o) => Some(strings_view(o@)),
                None => None,
            },
        }
    }
}

impl Duplicate for TemplateVariable {
    fn dup(&self) -> (r: TemplateVariable) {
        let options = match &self.options {
            Some(o) => {
                let c = copy_strings(o);
                assert(strings_view(c@) == strings_view(o@));
                Some(c)
            }
            None => None,
        };
        TemplateVariable {
            name: self.name.clone(),
            var_type: self.var_type.clone(),
            default_value: self.default_value.clone(),
            description: self.description.clone(),
            required: self.required,
            options,
        }
    }
}

} // verus!
