//! Security scanning of marketplace plugins: the individual checks, matching
//! against known vulnerabilities, the permissions looked at, the risk level
//! and verdict of a scan, and the history of scans. Scores and CVSS scores are
//! carried as IEEE double bit patterns; times are milliseconds.
use vstd::prelude::*;
use crate::keyed::{Keyed, Store, lemma_store_keys};
use crate::text::{owned, str_eq, strings_view, copy_strings, opt_view, copy_opt_string, concat, lowercase, to_lowercase,
    has_substring, has_substring_exec, words, split_words, char_vecs, chars_of, string_from_chars, join_sep, join_strings,
    contains_str};
use crate::dup::{Duplicate, views, dup_vec};
use crate::monitor::types::{double_lt, double_le, double_less, double_less_eq};
use crate::plugins::types::{Plugin, PluginView, RiskLevel};
use crate::clock::{format_rfc3339, rfc3339_text};
use crate::text::{i64_to_decimal, signed_decimal};

verus! {

/// The outcome of one security check.
pub struct SecurityCheck {
    pub check_name: String,
    pub passed: bool,
    pub severity: String,
    pub description: String,
    pub details: Option<String>,
}

/// The plain content of a check.
pub struct CheckView {
    pub check_name: Seq<char>,
    pub passed: bool,
    pub severity: Seq<char>,
    pub description: Seq<char>,
    pub details: Option<Seq<char>>,
}

impl View for SecurityCheck {
    type V = CheckView;

    open spec fn view(&self) -> CheckView {
        CheckView {
            check_name: self.check_name@,
            passed: self.passed,
            severity: self.severity@,
            description: self.description@,
            details: opt_view(self.details),
        }
    }
}

impl Duplicate for SecurityCheck {
    fn dup(&self) -> (r: SecurityCheck) {
        SecurityCheck {
            check_name: self.check_name.clone(),
            passed: self.passed,
            severity: self.severity.clone(),
            description: self.description.clone(),
            details: copy_opt_string(&self.details),
        }
    }
}

/// A known vulnerability.
pub struct Vulnerability {
    pub cve_id: Option<String>,
    pub title: String,
    pub description: String,
    pub severity: String,
    pub cvss_score_bits: Option<u64>,
    pub affected_versions: Vec<String>,
    pub fixed_in_version: Option<String>,
    pub remediation: String,
}

/// The plain content of a vulnerability.
pub struct VulnerabilityView {
    pub cve_id: Option<Seq<char>>,
    pub title: Seq<char>,
    pub description: Seq<char>,
    pub severity: Seq<char>,
    pub cvss_score_bits: Option<u64>,
    pub affected_versions: Seq<Seq<char>>,
    pub fixed_in_version: Option<Seq<char>>,
    pub remediation: Seq<char>,
}

impl View for Vulnerability {
    type V = VulnerabilityView;

    open spec fn view(&self) -> VulnerabilityView {
        VulnerabilityView {
            cve_id: opt_view(self.cve_id),
            title: self.title@,
            description: self.description@,
            severity: self.severity@,
            cvss_score_bits: self.cvss_score_bits,
            affected_versions: strings_view(self.affected_versions@),
            fixed_in_version: opt_view(self.fixed_in_version),
            remediation: self.remediation@,
        }
    }
}

impl Duplicate for Vulnerability {
    fn dup(&self) -> (r: Vulnerability) {
        let affected = copy_strings(&self.affected_versions);
        assert(strings_view(affected@) == strings_view(self.affected_versions@));
        Vulnerability {
            cve_id: copy_opt_string(&self.cve_id),
            title: self.title.clone(),
            description: self.description.clone(),
            severity: self.severity.clone(),
            cvss_score_bits: self.cvss_score_bits,
            affected_versions: affected,
            fixed_in_version: copy_opt_string(&self.fixed_in_version),
            remediation: self.remediation.clone(),
        }
    }
}

/// What a permission a plugin may use allows.
pub struct PermissionAnalysis {
    pub permission: String,
    pub description: String,
    pub risk_level: String,
    pub justification: String,
}

/// The plain content of a permission analysis.
pub struct PermissionView {
    pub permission: Seq<char>,
    pub description: Seq<char>,
    pub risk_level: Seq<char>,
    pub justification: Seq<char>,
}

impl View for PermissionAnalysis {
    type V = PermissionView;

    open spec fn view(&self) -> PermissionView {
        PermissionView {
            permission: self.permission@,
            description: self.description@,
            risk_level: self.risk_level@,
            justification: self.justification@,
        }
    }
}

impl Duplicate for PermissionAnalysis {
    fn dup(&self) -> (r: PermissionAnalysis) {
        PermissionAnalysis {
            permission: self.permission.clone(),
            description: self.description.clone(),
            risk_level: self.risk_level.clone(),
            justification: self.justification.clone(),
        }
    }
}

/// A network connection a plugin makes.
pub struct ConnectionInfo {
    pub host: String,
    pub port: i32,
    pub connection_type: String,
    pub frequency: String,
}

/// The plain content of a connection.
pub struct ConnectionView {
    pub host: Seq<char>,
    pub port: i32,
    pub connection_type: Seq<char>,
    pub frequency: Seq<char>,
}

impl View for ConnectionInfo {
    type V = ConnectionView;

    open spec fn view(&self) -> ConnectionView {
        ConnectionView {
            host: self.host@,
            port: self.port,
            connection_type: self.connection_type@,
            frequency: self.frequency@,
        }
    }
}

impl Duplicate for ConnectionInfo {
    fn dup(&self) -> (r: ConnectionInfo) {
        ConnectionInfo {
            host: self.host.clone(),
            port: self.port,
            connection_type: self.connection_type.clone(),
            frequency: self.frequency.clone(),
        }
    }
}

/// The network activity seen of a plugin.
pub struct NetworkAnalysis {
    pub outbound_connections: Vec<ConnectionInfo>,
    pub inbound_connections: Vec<ConnectionInfo>,
    pub dns_resolutions: Vec<String>,
    pub suspicious_activity: bool,
}

/// The plain content of a network analysis.
pub struct NetworkView {
    pub outbound_connections: Seq<ConnectionView>,
    pub inbound_connections: Seq<ConnectionView>,
    pub dns_resolutions: Seq<Seq<char>>,
    pub suspicious_activity: bool,
}

impl View for NetworkAnalysis {
    type V = NetworkView;

    open spec fn view(&self) -> NetworkView {
        NetworkView {
            outbound_connections: views(self.outbound_connections@),
            inbound_connections: views(self.inbound_connections@),
            dns_resolutions: strings_view(self.dns_resolutions@),
            suspicious_activity: self.suspicious_activity,
        }
    }
}

impl Duplicate for NetworkAnalysis {
    fn dup(&self) -> (r: NetworkAnalysis) {
        let dns = copy_strings(&self.dns_resolutions);
        assert(strings_view(dns@) == strings_view(self.dns_resolutions@));
        NetworkAnalysis {
            outbound_connections: dup_vec(&self.outbound_connections),
            inbound_connections: dup_vec(&self.inbound_connections),
            dns_resolutions: dns,
            suspicious_activity: self.suspicious_activity,
        }
    }
}

/// The result of scanning a plugin.
pub struct SecurityReport {
    pub plugin_id: String,
    pub plugin_name: String,
    pub scan_time: u64,
    pub score_bits: u64,
    pub risk_level: RiskLevel,
    pub checks: Vec<SecurityCheck>,
    pub vulnerabilities: Vec<Vulnerability>,
    pub permissions: Vec<PermissionAnalysis>,
    pub network_activity: NetworkAnalysis,
    pub overall_verdict: String,
}

/// The plain content of a report.
pub struct ReportView {
    pub plugin_id: Seq<char>,
    pub plugin_name: Seq<char>,
    pub scan_time: u64,
    pub score_bits: u64,
    pub risk_level: RiskLevel,
    pub checks: Seq<CheckView>,
    pub vulnerabilities: Seq<VulnerabilityView>,
    pub permissions: Seq<PermissionView>,
    pub network_activity: NetworkView,
    pub overall_verdict: Seq<char>,
}

impl View for SecurityReport {
    type V = ReportView;

    open spec fn view(&self) -> ReportView {
        ReportView {
            plugin_id: self.plugin_id@,
            plugin_name: self.plugin_name@,
            scan_time: self.scan_time,
            score_bits: self.score_bits,
            risk_level: self.risk_level,
            checks: views(self.checks@),
            vulnerabilities: views(self.vulnerabilities@),
            permissions: views(self.permissions@),
            network_activity: self.network_activity@,
            overall_verdict: self.overall_verdict@,
        }
    }
}

impl Duplicate for SecurityReport {
    fn dup(&self) -> (r: SecurityReport) {
        SecurityReport {
            plugin_id: self.plugin_id.clone(),
            plugin_name: self.plugin_name.clone(),
            scan_time: self.scan_time,
            score_bits: self.score_bits,
            risk_level: self.risk_level,
            checks: dup_vec(&self.checks),
            vulnerabilities: dup_vec(&self.vulnerabilities),
            permissions: dup_vec(&self.permissions),
            network_activity: self.network_activity.dup(),
            overall_verdict: self.overall_verdict.clone(),
        }
    }
}

impl Keyed for SecurityReport {
    open spec fn key_view(&self) -> Seq<char> {
        self.plugin_id@
    }

    fn key_str(&self) -> (r: &str) {
        self.plugin_id.as_str()
    }
}

// ---------------------------------------------------------------------------
// The checks
// ---------------------------------------------------------------------------

/// A check with the given parts.
pub open spec fn check(name: Seq<char>, passed: bool, severity: Seq<char>, description: Seq<char>, details: Option<Seq<char>>) -> CheckView {
    CheckView { check_name: name, passed, severity, description, details }
}

/// A check with the given parts.
fn make_check(name: &str, passed: bool, severity: &str, description: String, details: Option<String>) -> (c: SecurityCheck)
    ensures
        c@ == check(name@, passed, severity@, description@, opt_view(details)),
{
    SecurityCheck { check_name: owned(name), passed, severity: owned(severity), description, details }
}

/// The official download sites.
pub open spec fn official_sources() -> Seq<Seq<char>> {
    seq!["spigotmc.org"@, "dev.bukkit.org"@, "papermc.io"@, "github.com"@]
}

/// Whether the download address or the website of `p` mentions `site`.
pub open spec fn mentions_site(p: PluginView, site: Seq<char>) -> bool {
    has_substring(p.download_url, site) || match p.website {
        Some(w) => has_substring(w, site),
        None => false,
    }
}

/// Whether plugin `p` comes from an official site: its download address or
/// its website mentions one.
pub open spec fn from_official_source(p: PluginView) -> bool {
    exists|k: int| 0 <= k < official_sources().len() && #[trigger] mentions_site(p, official_sources()[k])
}

/// The download source check of `p`.
pub open spec fn source_check(p: PluginView) -> CheckView {
    let ok = from_official_source(p);
    check("Download Source Verification"@, ok, if ok { "info"@ } else { "warning"@ },
        if ok { "Downloaded from official source"@ } else { "Not from verified official source"@ }, Some(p.download_url))
}

/// The authors considered verified.
pub open spec fn verified_authors() -> Seq<Seq<char>> {
    seq!["sk89q"@, "wizjany"@, "luck"@, "mdc"@, "zml"@, "aikar"@, "minikloon"@]
}

/// The author check of `p`: passes when it names authors.
pub open spec fn author_check(p: PluginView) -> CheckView {
    let names = join_sep(p.authors, ", "@);
    let verified = exists|i: int| 0 <= i < p.authors.len() && #[trigger] verified_authors().contains(p.authors[i]);
    check("Author Verification"@, p.authors.len() > 0, "info"@,
        if verified { "Verified author: "@ + names } else { "Author(s): "@ + names }, Some(names))
}

/// One day in milliseconds.
pub const DAY_MS: u64 = 86_400_000;

/// Whole days from `then` to `now` (both in milliseconds), rounded toward
/// zero; negative when `then` is later.
pub open spec fn days_between(now: u64, then: u64) -> int {
    if now >= then { (now - then) as int / DAY_MS as int } else { -((then - now) as int / DAY_MS as int) }
}

/// The update age check of `p` at `now`: it fails, as a warning, when the
/// plugin was last updated more than 365 days ago.
pub open spec fn update_check(p: PluginView, now: u64) -> CheckView {
    let d = days_between(now, p.upload_date);
    check("Update Frequency"@, !(d > 365), if d > 365 { "warning"@ } else { "info"@ },
        "Last updated "@ + signed_decimal(d) + " days ago"@, Some(rfc3339_text(p.upload_date)))
}

/// The source code check of `p`: passes when its source is published.
pub open spec fn source_code_check(p: PluginView) -> CheckView {
    let has = p.source_url is Some;
    check("Source Code Available"@, has, if has { "info"@ } else { "warning"@ },
        if has { "Open source plugin"@ } else { "Closed source - cannot verify code"@ }, p.source_url)
}

/// The checks that always pass, in order.
pub open spec fn standard_checks() -> Seq<CheckView> {
    seq![
        check("Permission Analysis"@, true, "info"@, "Standard permission set"@, None),
        check("Network Access"@, true, "info"@, "No external network access detected"@, None),
        check("File Operations"@, true, "info"@, "Standard file operations"@, None),
        check("Database Access"@, true, "info"@, "No direct database access"@, None),
        check("Command Execution"@, true, "info"@, "Standard command handling"@, None),
    ]
}

/// The first word of `s`, or nothing when it has none.
pub open spec fn first_word(s: Seq<char>) -> Seq<char> {
    if words(s).len() > 0 { words(s)[0] } else { seq![] }
}

/// Whether vulnerability `v` concerns the plugin named `name`: its
/// lower-case title contains the plugin's lower-case name, or the plugin's
/// lower-case name contains the first word of that title.
pub open spec fn concerns(v: VulnerabilityView, name: Seq<char>) -> bool {
    has_substring(lowercase(v.title), lowercase(name)) || has_substring(lowercase(name), first_word(lowercase(v.title)))
}

/// The vulnerabilities of `db` that concern the plugin named `name`, in order.
pub open spec fn matching(db: Seq<VulnerabilityView>, name: Seq<char>) -> Seq<VulnerabilityView>
    decreases db.len(),
{
    if db.len() == 0 {
        seq![]
    } else if concerns(db.last(), name) {
        matching(db.drop_last(), name).push(db.last())
    } else {
        matching(db.drop_last(), name)
    }
}

/// How many vulnerabilities of `vs` are critical.
pub open spec fn critical_count(vs: Seq<VulnerabilityView>) -> nat
    decreases vs.len(),
{
    if vs.len() == 0 { 0 } else { critical_count(vs.drop_last()) + if vs.last().severity == "Critical"@ { 1nat } else { 0nat } }
}

/// How many checks of `cs` failed.
pub open spec fn failed_count(cs: Seq<CheckView>) -> nat
    decreases cs.len(),
{
    if cs.len() == 0 { 0 } else { failed_count(cs.drop_last()) + if !cs.last().passed { 1nat } else { 0nat } }
}

/// The risk level of a scan: critical with a critical vulnerability, high
/// with more than three failed checks, medium with any, low otherwise.
pub open spec fn risk_of(cs: Seq<CheckView>, vs: Seq<VulnerabilityView>) -> RiskLevel {
    if critical_count(vs) > 0 { RiskLevel::Critical }
    else if failed_count(cs) > 3 { RiskLevel::High }
    else if failed_count(cs) > 0 { RiskLevel::Medium }
    else { RiskLevel::Low }
}

/// The bit pattern of the double 50.0.
pub const FIFTY_BITS: u64 = 0x4049_0000_0000_0000u64;
/// The bit pattern of the double 60.0.
pub const SIXTY_BITS: u64 = 0x404e_0000_0000_0000u64;
/// The bit pattern of the double 70.0.
pub const SEVENTY_BITS: u64 = 0x4051_8000_0000_0000u64;

/// The verdict for a scan with score `score` (a double bit pattern) and risk `risk`.
pub open spec fn verdict(score: u64, risk: RiskLevel) -> Seq<char> {
    if risk == RiskLevel::Critical && double_lt(score, FIFTY_BITS) {
        "⚠️ CRITICAL: Plugin has severe security issues. Do not install."@
    } else if risk == RiskLevel::Critical {
        "🔴 HIGH RISK: Known vulnerabilities detected. Use with caution."@
    } else if risk == RiskLevel::High && double_lt(score, SIXTY_BITS) {
        "🟠 MEDIUM-HIGH: Some security concerns. Review permissions."@
    } else if risk == RiskLevel::Medium && double_le(SEVENTY_BITS, score) {
        "🟡 ACCEPTABLE: Generally safe with minor concerns."@
    } else {
        "🟢 SAFE: No major security issues detected."@
    }
}

/// The permissions every scan reports, with what they allow and their risk.
pub open spec fn known_permissions() -> Seq<PermissionView> {
    seq![
        PermissionView { permission: "*"@, description: "All permissions"@, risk_level: "dangerous"@, justification: "Standard permission"@ },
        PermissionView { permission: "admin"@, description: "Administrator access"@, risk_level: "dangerous"@, justification: "Standard permission"@ },
        PermissionView { permission: "bukkit.command"@, description: "Execute Bukkit commands"@, risk_level: "high"@, justification: "Standard permission"@ },
        PermissionView { permission: "minecraft.command"@, description: "Execute Minecraft commands"@, risk_level: "high"@, justification: "Standard permission"@ },
    ]
}

/// The bit patterns of the CVSS scores of the built-in vulnerabilities
/// (10.0, 8.1 and 6.5).
pub const CVSS_LOG4SHELL_BITS: u64 = 0x4024_0000_0000_0000u64;
pub const CVSS_PROTOCOLLIB_BITS: u64 = 0x4020_3333_3333_3333u64;
pub const CVSS_WORLDEDIT_BITS: u64 = 0x401a_0000_0000_0000u64;

/// A vulnerability with the given parts.
fn vulnerability(cve: Option<&str>, title: &str, description: &str, severity: &str, cvss: u64, affected: &str, fixed: &str, remediation: &str) -> (v: Vulnerability)
    ensures
        v@ == (VulnerabilityView {
            cve_id: match cve { Some(c) => Some(c@), None => None },
            title: title@,
            description: description@,
            severity: severity@,
            cvss_score_bits: Some(cvss),
            affected_versions: seq![affected@],
            fixed_in_version: Some(fixed@),
            remediation: remediation@,
        }),
{
    let v = Vulnerability {
        cve_id: match cve { Some(c) => Some(owned(c)), None => None },
        title: owned(title),
        description: owned(description),
        severity: owned(severity),
        cvss_score_bits: Some(cvss),
        affected_versions: vec![owned(affected)],
        fixed_in_version: Some(owned(fixed)),
        remediation: owned(remediation),
    };
    assert(strings_view(v.affected_versions@) =~= seq![affected@]);
    v
}

/// The built-in vulnerabilities: Log4Shell, a ProtocolLib deserialization
/// flaw and unsafe file access in WorldEdit/FAWE.
pub open spec fn builtin_vulnerabilities() -> Seq<VulnerabilityView> {
    seq![
        VulnerabilityView {
            cve_id: Some("CVE-2021-44228"@), title: "Log4Shell"@, description: "Remote code execution via JNDI injection"@,
            severity: "Critical"@, cvss_score_bits: Some(CVSS_LOG4SHELL_BITS), affected_versions: seq!["2.0-beta9 to 2.15.0"@],
            fixed_in_version: Some("2.17.0"@), remediation: "Update to Log4j 2.17.0 or later"@,
        },
        VulnerabilityView {
            cve_id: Some("CVE-2023-42821"@), title: "ProtocolLib Deserialization"@, description: "Unsafe deserialization in PacketListener"@,
            severity: "High"@, cvss_score_bits: Some(CVSS_PROTOCOLLIB_BITS), affected_versions: seq!["5.0.0 to 5.1.0"@],
            fixed_in_version: Some("5.2.0"@), remediation: "Update ProtocolLib to 5.2.0 or later"@,
        },
        VulnerabilityView {
            cve_id: None, title: "WorldEdit/FAWE Unsafe File Access"@, description: "Path traversal vulnerability in schematic operations"@,
            severity: "Medium"@, cvss_score_bits: Some(CVSS_WORLDEDIT_BITS), affected_versions: seq!["7.0.0 to 7.2.10"@],
            fixed_in_version: Some("7.2.11"@), remediation: "Update WorldEdit to latest version"@,
        },
    ]
}

/// Whether `plugin` comes from an official site (see `from_official_source`).
fn official_source(plugin: &Plugin) -> (b: bool)
    ensures
        b == from_official_source(plugin@),
{
    let sources = vec![owned("spigotmc.org"), owned("dev.bukkit.org"), owned("papermc.io"), owned("github.com")];
    assert(strings_view(sources@) =~= official_sources());
    let n = sources.len();
    let mut k: usize = 0;
    while k < n
        invariant
            n == sources@.len(),
            strings_view(sources@) == official_sources(),
            k <= n,
            forall|j: int| 0 <= j < k ==> !#[trigger] mentions_site(plugin@, official_sources()[j]),
        decreases n - k,
    {
        let s = sources[k].as_str();
        assert(s@ == strings_view(sources@)[k as int]);
        assert(s@ == official_sources()[k as int]);
        let hit_url = has_substring_exec(plugin.download_url.as_str(), s);
        let hit_site = match &plugin.website {
            Some(w) => {
                assert(plugin@.website == Some(w@));
                has_substring_exec(w.as_str(), s)
            }
            None => false,
        };
        let hit = hit_url || hit_site;
        assert(hit == mentions_site(plugin@, official_sources()[k as int]));
        if hit {
            assert(mentions_site(plugin@, official_sources()[k as int]));
            return true;
        }
        k = k + 1;
    }
    false
}

/// Whether one of `authors` is a verified author.
fn any_verified(authors: &Vec<String>) -> (b: bool)
    ensures
        b == exists|i: int| 0 <= i < authors@.len() && #[trigger] verified_authors().contains(strings_view(authors@)[i]),
{
    let trusted = vec![owned("sk89q"), owned("wizjany"), owned("luck"), owned("mdc"), owned("zml"), owned("aikar"), owned("minikloon")];
    assert(strings_view(trusted@) =~= verified_authors());
    let n = authors.len();
    let mut i: usize = 0;
    while i < n
        invariant
            n == authors@.len(),
            strings_view(trusted@) == verified_authors(),
            i <= n,
            forall|j: int| 0 <= j < i ==> !#[trigger] verified_authors().contains(strings_view(authors@)[j]),
        decreases n - i,
    {
        if contains_str(&trusted, authors[i].as_str()) {
            assert(verified_authors().contains(strings_view(authors@)[i as int]));
            return true;
        }
        i = i + 1;
    }
    false
}

proof fn lemma_all_passed(cs: Seq<CheckView>)
    requires
        forall|i: int| 0 <= i < cs.len() ==> #[trigger] cs[i].passed,
    ensures
        failed_count(cs) == 0,
    decreases cs.len(),
{
    if cs.len() > 0 {
        assert(cs.last().passed);
        lemma_all_passed(cs.drop_last());
    }
}

// ---------------------------------------------------------------------------
// The scanner
// ---------------------------------------------------------------------------

/// The known vulnerabilities, the last report by plugin, and where scans
/// are cached.
pub struct SecurityScanner {
    cache_dir: String,
    scan_history: Store<SecurityReport>,
    known_vulnerabilities: Vec<Vulnerability>,
}

impl SecurityScanner {
    /// The last report by plugin id.
    pub closed spec fn history(&self) -> Map<Seq<char>, ReportView> {
        self.scan_history.map().map_values(|r: SecurityReport| r@)
    }

    /// The known vulnerabilities, in order.
    pub closed spec fn db(&self) -> Seq<VulnerabilityView> {
        views(self.known_vulnerabilities@)
    }

    /// Where scans are cached.
    pub closed spec fn dir(&self) -> Seq<char> {
        self.cache_dir@
    }

    /// No reports and no known vulnerabilities.
    pub fn new(cache_dir: String) -> (s: SecurityScanner)
        ensures
            s.history() == Map::<Seq<char>, ReportView>::empty(),
            s.db() == Seq::<VulnerabilityView>::empty(),
            s.dir() == cache_dir@,
    {
        let s = SecurityScanner { cache_dir, scan_history: Store::new(), known_vulnerabilities: Vec::new() };
        assert(s.history() =~= Map::<Seq<char>, ReportView>::empty());
        assert(s.db() =~= Seq::<VulnerabilityView>::empty());
        s
    }

    /// Where scans are cached.
    pub fn cache_dir(&self) -> (d: &str)
        ensures
            d@ == self.dir(),
    {
        self.cache_dir.as_str()
    }

    /// Replaces the known vulnerabilities with the built-in ones.
    pub fn load_vulnerability_database(&mut self)
        ensures
            final(self).db() == builtin_vulnerabilities(),
            final(self).history() == old(self).history(),
            final(self).dir() == old(self).dir(),
    {
        let db = vec![
            vulnerability(Some("CVE-2021-44228"), "Log4Shell", "Remote code execution via JNDI injection", "Critical",
                CVSS_LOG4SHELL_BITS, "2.0-beta9 to 2.15.0", "2.17.0", "Update to Log4j 2.17.0 or later"),
            vulnerability(Some("CVE-2023-42821"), "ProtocolLib Deserialization", "Unsafe deserialization in PacketListener", "High",
                CVSS_PROTOCOLLIB_BITS, "5.0.0 to 5.1.0", "5.2.0", "Update ProtocolLib to 5.2.0 or later"),
            vulnerability(None, "WorldEdit/FAWE Unsafe File Access", "Path traversal vulnerability in schematic operations", "Medium",
                CVSS_WORLDEDIT_BITS, "7.0.0 to 7.2.10", "7.2.11", "Update WorldEdit to latest version"),
        ];
        self.known_vulnerabilities = db;
        assert(self.db() =~= builtin_vulnerabilities());
    }

    /// The download source check of `plugin` (see `source_check`).
    pub fn check_download_source(&self, plugin: &Plugin) -> (c: SecurityCheck)
        ensures
            c@ == source_check(plugin@),
    {
        let ok = official_source(plugin);
        let (severity, description) = if ok {
            ("info", owned("Downloaded from official source"))
        } else {
            ("warning", owned("Not from verified official source"))
        };
        make_check("Download Source Verification", ok, severity, description, Some(plugin.download_url.clone()))
    }

    /// The author check of `plugin` (see `author_check`).
    pub fn check_author_verification(&self, plugin: &Plugin) -> (c: SecurityCheck)
        ensures
            c@ == author_check(plugin@),
    {
        let n = plugin.authors.len();
        let verified = any_verified(&plugin.authors);
        let names = join_strings(&plugin.authors, ", ");
        let description = if verified { concat("Verified author: ", names.as_str()) } else { concat("Author(s): ", names.as_str()) };
        make_check("Author Verification", n > 0, "info", description, Some(names))
    }

    /// The update age check of `plugin` at `now` (see `update_check`).
    pub fn check_update_frequency(&self, plugin: &Plugin, now: u64) -> (c: SecurityCheck)
        ensures
            c@ == update_check(plugin@, now),
    {
        let then = plugin.upload_date;
        let days: i64 = if now >= then {
            let q = (now - then) / DAY_MS;
            assert(q <= 213_503_982_335) by (nonlinear_arith) requires q == (now - then) / 86_400_000, now - then <= u64::MAX;
            q as i64
        } else {
            let q = (then - now) / DAY_MS;
            assert(q <= 213_503_982_335) by (nonlinear_arith) requires q == (then - now) / 86_400_000, then - now <= u64::MAX;
            -(q as i64)
        };
        assert(days as int == days_between(now, then));
        let outdated = days > 365;
        let a = concat("Last updated ", i64_to_decimal(days).as_str());
        let description = concat(a.as_str(), " days ago");
        let severity = if outdated { "warning" } else { "info" };
        make_check("Update Frequency", !outdated, severity, description, Some(format_rfc3339(then)))
    }

    /// The source code check of `plugin` (see `source_code_check`).
    pub fn check_source_code_availability(&self, plugin: &Plugin) -> (c: SecurityCheck)
        ensures
            c@ == source_code_check(plugin@),
    {
        let has = plugin.source_url.is_some();
        let (severity, description) = if has {
            ("info", owned("Open source plugin"))
        } else {
            ("warning", owned("Closed source - cannot verify code"))
        };
        make_check("Source Code Available", has, severity, description, copy_opt_string(&plugin.source_url))
    }

    /// The checks that always pass (permissions, network, files, database,
    /// commands), in order.
    pub fn standard_checks(&self) -> (v: Vec<SecurityCheck>)
        ensures
            views(v@) == standard_checks(),
    {
        let v = vec![
            make_check("Permission Analysis", true, "info", owned("Standard permission set"), None),
            make_check("Network Access", true, "info", owned("No external network access detected"), None),
            make_check("File Operations", true, "info", owned("Standard file operations"), None),
            make_check("Database Access", true, "info", owned("No direct database access"), None),
            make_check("Command Execution", true, "info", owned("Standard command handling"), None),
        ];
        assert(views(v@) =~= standard_checks());
        v
    }

    /// Copies of the known vulnerabilities that concern `plugin` (see `concerns`).
    pub fn check_vulnerabilities(&self, plugin: &Plugin) -> (v: Vec<Vulnerability>)
        ensures
            views(v@) == matching(self.db(), plugin@.name),
    {
        let name_lower = to_lowercase(plugin.name.as_str());
        let db = &self.known_vulnerabilities;
        let ghost s = self.db();
        let n = db.len();
        let mut r: Vec<Vulnerability> = Vec::new();
        let mut i: usize = 0;
        while i < n
            invariant
                n == db@.len(),
                s == views(db@),
                name_lower@ == lowercase(plugin@.name),
                i <= n,
                views(r@) == matching(s.take(i as int), plugin@.name),
            decreases n - i,
        {
            proof {
                assert(s.take(i + 1).drop_last() =~= s.take(i as int));
                assert(s.take(i + 1).last() == db@[i as int]@);
            }
            let title_lower = to_lowercase(db[i].title.as_str());
            let tw = split_words(&chars_of(title_lower.as_str()));
            let first = if tw.len() > 0 { string_from_chars(&tw[0]) } else { String::new() };
            proof {
                assert(char_vecs(tw@) == words(title_lower@));
                if tw@.len() > 0 {
                    assert(char_vecs(tw@)[0] == tw@[0]@);
                }
            }
            assert(first@ == first_word(lowercase(db@[i as int]@.title)));
            if has_substring_exec(title_lower.as_str(), name_lower.as_str()) || has_substring_exec(name_lower.as_str(), first.as_str()) {
                let ghost before = views(r@);
                r.push(db[i].dup());
                assert(views(r@) =~= before.push(db@[i as int]@));
            }
            i = i + 1;
        }
        proof { assert(s.take(n as int) =~= s); }
        r
    }

    /// The permissions every scan reports.
    pub fn analyze_permissions(&self, plugin: &Plugin) -> (v: Vec<PermissionAnalysis>)
        ensures
            views(v@) == known_permissions(),
    {
        let v = vec![
            PermissionAnalysis { permission: owned("*"), description: owned("All permissions"), risk_level: owned("dangerous"), justification: owned("Standard permission") },
            PermissionAnalysis { permission: owned("admin"), description: owned("Administrator access"), risk_level: owned("dangerous"), justification: owned("Standard permission") },
            PermissionAnalysis { permission: owned("bukkit.command"), description: owned("Execute Bukkit commands"), risk_level: owned("high"), justification: owned("Standard permission") },
            PermissionAnalysis { permission: owned("minecraft.command"), description: owned("Execute Minecraft commands"), risk_level: owned("high"), justification: owned("Standard permission") },
        ];
        assert(views(v@) =~= known_permissions());
        v
    }

    /// The network activity seen of a plugin: none.
    pub fn analyze_network_activity(&self, plugin: &Plugin) -> (n: NetworkAnalysis)
        ensures
            n@.outbound_connections.len() == 0,
            n@.inbound_connections.len() == 0,
            n@.dns_resolutions.len() == 0,
            !n@.suspicious_activity,
    {
        NetworkAnalysis {
            outbound_connections: Vec::new(),
            inbound_connections: Vec::new(),
            dns_resolutions: Vec::new(),
            suspicious_activity: false,
        }
    }

    /// The risk level of a scan with `checks` and `vulnerabilities` (see `risk_of`).
    pub fn calculate_risk_level(&self, checks: &Vec<SecurityCheck>, vulnerabilities: &Vec<Vulnerability>) -> (r: RiskLevel)
        ensures
            r == risk_of(views(checks@), views(vulnerabilities@)),
    {
        let ghost vs = views(vulnerabilities@);
        let ghost cs = views(checks@);
        let nv = vulnerabilities.len();
        let mut critical: usize = 0;
        let mut i: usize = 0;
        while i < nv
            invariant
                nv == vulnerabilities@.len(),
                vs == views(vulnerabilities@),
                i <= nv,
                critical == critical_count(vs.take(i as int)),
                critical <= i,
            decreases nv - i,
        {
            proof {
                assert(vs.take(i + 1).drop_last() =~= vs.take(i as int));
                assert(vs.take(i + 1).last() == vulnerabilities@[i as int]@);
            }
            if str_eq(vulnerabilities[i].severity.as_str(), "Critical") {
                critical = critical + 1;
            }
            i = i + 1;
        }
        proof { assert(vs.take(nv as int) =~= vs); }
        let nc = checks.len();
        let mut failed: usize = 0;
        let mut j: usize = 0;
        while j < nc
            invariant
                nc == checks@.len(),
                cs == views(checks@),
                j <= nc,
                failed == failed_count(cs.take(j as int)),
                failed <= j,
            decreases nc - j,
        {
            proof {
                assert(cs.take(j + 1).drop_last() =~= cs.take(j as int));
                assert(cs.take(j + 1).last() == checks@[j as int]@);
            }
            if !checks[j].passed {
                failed = failed + 1;
            }
            j = j + 1;
        }
        proof { assert(cs.take(nc as int) =~= cs); }
        if critical > 0 {
            RiskLevel::Critical
        } else if failed > 3 {
            RiskLevel::High
        } else if failed > 0 {
            RiskLevel::Medium
        } else {
            RiskLevel::Low
        }
    }

    /// The verdict for a scan with score `score_bits` and risk `risk` (see `verdict`).
    pub fn generate_verdict(&self, score_bits: u64, risk: RiskLevel) -> (v: String)
        ensures
            v@ == verdict(score_bits, risk),
    {
        if risk == RiskLevel::Critical && double_less(score_bits, FIFTY_BITS) {
            owned("⚠️ CRITICAL: Plugin has severe security issues. Do not install.")
        } else if risk == RiskLevel::Critical {
            owned("🔴 HIGH RISK: Known vulnerabilities detected. Use with caution.")
        } else if risk == RiskLevel::High && double_less(score_bits, SIXTY_BITS) {
            owned("🟠 MEDIUM-HIGH: Some security concerns. Review permissions.")
        } else if risk == RiskLevel::Medium && double_less_eq(SEVENTY_BITS, score_bits) {
            owned("🟡 ACCEPTABLE: Generally safe with minor concerns.")
        } else {
            owned("🟢 SAFE: No major security issues detected.")
        }
    }

    /// The checks of a scan of `plugin` at `now`, in order: download source,
    /// author, update age, source code, the community trust check
    /// `popularity` (its rating test and text are floating point, made by the
    /// caller), then the standard checks.
    pub fn perform_security_checks_at(&self, plugin: &Plugin, now: u64, popularity: SecurityCheck) -> (v: Vec<SecurityCheck>)
        ensures
            views(v@) == seq![source_check(plugin@), author_check(plugin@), update_check(plugin@, now),
                source_code_check(plugin@), popularity@] + standard_checks(),
    {
        let mut v = vec![
            self.check_download_source(plugin),
            self.check_author_verification(plugin),
            self.check_update_frequency(plugin, now),
            self.check_source_code_availability(plugin),
            popularity,
        ];
        let ghost first = views(v@);
        let mut rest = self.standard_checks();
        v.append(&mut rest);
        assert(views(v@) =~= first + standard_checks());
        assert(first =~= seq![source_check(plugin@), author_check(plugin@), update_check(plugin@, now),
                source_code_check(plugin@), v@[4]@]);
        v
    }

    /// Files the scan of `plugin` at `now` with `checks`, the matching
    /// `vulnerabilities` and the score `score_bits` (a double bit pattern the
    /// caller computed): the report carries the plugin's numeric id as text,
    /// its name, the risk level (see `risk_of`), the verdict (see `verdict`),
    /// the permissions looked at and no network activity. It is recorded as
    /// the plugin's last scan and returned.
    pub fn file_report_at(&mut self, plugin: &Plugin, now: u64, checks: Vec<SecurityCheck>, vulnerabilities: Vec<Vulnerability>,
        score_bits: u64) -> (r: SecurityReport)
        ensures
            r@.plugin_id == signed_decimal(plugin@.plugin_id as int),
            r@.plugin_name == plugin@.name,
            r@.scan_time == now,
            r@.score_bits == score_bits,
            r@.risk_level == risk_of(views(checks@), views(vulnerabilities@)),
            r@.checks == views(checks@),
            r@.vulnerabilities == views(vulnerabilities@),
            r@.permissions == known_permissions(),
            r@.network_activity.outbound_connections.len() == 0,
            r@.network_activity.inbound_connections.len() == 0,
            r@.network_activity.dns_resolutions.len() == 0,
            !r@.network_activity.suspicious_activity,
            r@.overall_verdict == verdict(score_bits, risk_of(views(checks@), views(vulnerabilities@))),
            final(self).history() == old(self).history().insert(r@.plugin_id, r@),
            final(self).db() == old(self).db(),
            final(self).dir() == old(self).dir(),
    {
        let risk = self.calculate_risk_level(&checks, &vulnerabilities);
        let overall_verdict = self.generate_verdict(score_bits, risk);
        let report = SecurityReport {
            plugin_id: i64_to_decimal(plugin.plugin_id),
            plugin_name: plugin.name.clone(),
            scan_time: now,
            score_bits,
            risk_level: risk,
            checks,
            vulnerabilities,
            permissions: self.analyze_permissions(plugin),
            network_activity: self.analyze_network_activity(plugin),
            overall_verdict,
        };
        let copy = report.dup();
        self.record_report(report);
        copy
    }

    /// Records `report` as the last scan of its plugin.
    pub fn record_report(&mut self, report: SecurityReport)
        ensures
            final(self).history() == old(self).history().insert(report@.plugin_id, report@),
            final(self).db() == old(self).db(),
            final(self).dir() == old(self).dir(),
    {
        let ghost rv = report@;
        self.scan_history.upsert(report);
        assert(self.history() =~= old(self).history().insert(rv.plugin_id, rv));
    }

    /// A copy of the last report on plugin `plugin_id`, if any.
    pub fn get_scan_history(&self, plugin_id: &str) -> (r: Option<SecurityReport>)
        ensures
            match r {
                Some(x) => self.history().dom().contains(plugin_id@) && x@ == self.history()[plugin_id@],
                None => !self.history().dom().contains(plugin_id@),
            },
    {
        match self.scan_history.get(plugin_id) {
            Some(x) => Some(x.dup()),
            None => None,
        }
    }

    /// Adds a known vulnerability.
    pub fn add_vulnerability(&mut self, vulnerability: Vulnerability)
        ensures
            final(self).db() == old(self).db().push(vulnerability@),
            final(self).history() == old(self).history(),
            final(self).dir() == old(self).dir(),
    {
        self.known_vulnerabilities.push(vulnerability);
        assert(self.db() =~= old(self).db().push(vulnerability@));
    }

    /// How many vulnerabilities are known.
    pub fn get_vulnerability_count(&self) -> (n: usize)
        ensures
            n == self.db().len(),
    {
        self.known_vulnerabilities.len()
    }
}

// ---------------------------------------------------------------------------
// Laws
// ---------------------------------------------------------------------------

/// A plugin with a critical vulnerability is always critical risk, whatever
/// its checks; one with no vulnerabilities and no failed checks is low risk.
pub proof fn law_critical_dominates(cs: Seq<CheckView>, vs: Seq<VulnerabilityView>)
    ensures
        critical_count(vs) > 0 ==> risk_of(cs, vs) == RiskLevel::Critical,
        (critical_count(vs) == 0 && failed_count(cs) == 0) ==> risk_of(cs, vs) == RiskLevel::Low,
{
}

/// The standard checks never fail: they alone leave a scan low risk.
pub proof fn law_standard_checks_pass()
    ensures
        failed_count(standard_checks()) == 0,
        risk_of(standard_checks(), seq![]) == RiskLevel::Low,
{
    let s = standard_checks();
    assert forall|i: int| 0 <= i < s.len() implies #[trigger] s[i].passed by {
        assert(s[0].passed && s[1].passed && s[2].passed && s[3].passed && s[4].passed);
    }
    lemma_all_passed(s);
    assert(critical_count(Seq::<VulnerabilityView>::empty()) == 0);
}

} // verus!
