//! Security baselines and scans: which checks pass, what is reported as a
//! finding, which remediations are recommended, and per-category tallies.
//! Percentages are computed by the caller from the tallies.
use vstd::prelude::*;
use crate::text::{owned, str_eq, concat};
use crate::ids::{new_uuid_string, is_hyphenated_uuid};
use crate::clock::now_millis_unsigned;

verus! {

/// The area a baseline belongs to.
#[derive(Clone, Copy, PartialEq, Eq, Structural, Debug, Hash)]
pub enum SecurityCategory {
    Authentication,
    Authorization,
    Network,
    DataProtection,
    Configuration,
    Logging,
    Cryptography,
    Server,
}

/// The display name of a category.
pub open spec fn category_display(c: SecurityCategory) -> Seq<char> {
    match c {
        SecurityCategory::Authentication => "认证安全"@,
        SecurityCategory::Authorization => "授权管理"@,
        SecurityCategory::Network => "网络安全"@,
        SecurityCategory::DataProtection => "数据保护"@,
        SecurityCategory::Configuration => "配置安全"@,
        SecurityCategory::Logging => "日志审计"@,
        SecurityCategory::Cryptography => "加密安全"@,
        SecurityCategory::Server => "服务器安全"@,
    }
}

impl SecurityCategory {
    /// The display name of the category.
    pub fn display_name(&self) -> (s: &'static str)
        ensures
            s@ == category_display(*self),
    {
        match self {
            SecurityCategory::Authentication => "认证安全",
            SecurityCategory::Authorization => "授权管理",
            SecurityCategory::Network => "网络安全",
            SecurityCategory::DataProtection => "数据保护",
            SecurityCategory::Configuration => "配置安全",
            SecurityCategory::Logging => "日志审计",
            SecurityCategory::Cryptography => "加密安全",
            SecurityCategory::Server => "服务器安全",
        }
    }
}

/// How bad a failed baseline is.
#[derive(Clone, Copy, PartialEq, Eq, Structural, Debug, PartialOrd)]
pub enum Severity {
    Critical,
    High,
    Medium,
    Low,
    Info,
}

/// The weight of a severity.
pub open spec fn severity_score(s: Severity) -> u32 {
    match s {
        Severity::Critical => 100,
        Severity::High => 75,
        Severity::Medium => 50,
        Severity::Low => 25,
        Severity::Info => 0,
    }
}

impl Severity {
    /// The weight of the severity.
    pub fn score(&self) -> (n: u32)
        ensures
            n == severity_score(*self),
    {
        match self {
            Severity::Critical => 100,
            Severity::High => 75,
            Severity::Medium => 50,
            Severity::Low => 25,
            Severity::Info => 0,
        }
    }
}

/// What a baseline inspects.
#[derive(Clone, Copy, PartialEq, Eq, Structural, Debug)]
pub enum CheckType {
    FileExists,
    FilePermission,
    ConfigValue,
    PortOpen,
    ProcessRunning,
    CertificateExpiry,
    PasswordStrength,
    EncryptionEnabled,
    LogEnabled,
    FirewallRule,
    Custom,
}

/// The outcome of one check.
#[derive(Clone, Copy, PartialEq, Eq, Structural, Debug)]
pub enum CheckStatus {
    Pass,
    Fail,
    Warning,
    NotRun,
    Error,
}

/// A rule the installation is held to.
pub struct SecurityBaseline {
    pub id: String,
    pub name: String,
    pub description: String,
    pub category: SecurityCategory,
    pub severity: Severity,
    pub check_type: CheckType,
    pub enabled: bool,
    pub remediation: String,
}

/// The plain content of a baseline.
pub struct BaselineView {
    pub id: Seq<char>,
    pub name: Seq<char>,
    pub description: Seq<char>,
    pub category: SecurityCategory,
    pub severity: Severity,
    pub check_type: CheckType,
    pub enabled: bool,
    pub remediation: Seq<char>,
}

impl View for SecurityBaseline {
    type V = BaselineView;

    open spec fn view(&self) -> BaselineView {
        BaselineView {
            id: self.id@,
            name: self.name@,
            description: self.description@,
            category: self.category,
            severity: self.severity,
            check_type: self.check_type,
            enabled: self.enabled,
            remediation: self.remediation@,
        }
    }
}

impl SecurityBaseline {
    /// A field-by-field copy.
    pub fn duplicate(&self) -> (r: SecurityBaseline)
        ensures
            r@ == self@,
    {
        SecurityBaseline {
            id: self.id.clone(),
            name: self.name.clone(),
            description: self.description.clone(),
            category: self.category,
            severity: self.severity,
            check_type: self.check_type,
            enabled: self.enabled,
            remediation: self.remediation.clone(),
        }
    }
}

/// A recorded check of a baseline.
pub struct SecurityCheck {
    pub id: String,
    pub baseline_id: String,
    pub status: CheckStatus,
    pub result: Option<CheckResult>,
    pub last_checked: u64,
    pub next_check: u64,
}

/// The outcome of a check with its explanation.
pub struct CheckResult {
    pub status: CheckStatus,
    pub message: String,
    pub details: Option<Vec<(String, String)>>,
    pub current_value: Option<String>,
    pub expected_value: Option<String>,
}

/// `cs` with the score of each checked category `i` set to `ps[i]`, where
/// `ps` has one.
pub open spec fn scored(cs: Seq<CategoryScore>, ps: Seq<u32>) -> Seq<CategoryScore> {
    Seq::new(cs.len(), |i: int| if i < ps.len() && cs[i].checks_total > 0 { CategoryScore { score: ps[i], ..cs[i] } } else { cs[i] })
}

/// Check counts of one category, and its score in percent.
#[derive(Clone, Copy, PartialEq, Eq, Structural, Debug)]
pub struct CategoryScore {
    pub category: SecurityCategory,
    pub score: u32,
    pub checks_passed: usize,
    pub checks_failed: usize,
    pub checks_total: usize,
}

/// A failed baseline of high or critical severity.
pub struct SecurityFinding {
    pub id: String,
    pub baseline_id: String,
    pub baseline_name: String,
    pub category: SecurityCategory,
    pub severity: Severity,
    pub description: String,
    pub current_state: String,
    pub recommended_state: String,
    pub remediation: String,
    pub auto_remediable: bool,
}

/// The counts, findings and recommendations of one scan, before scores.
pub struct ScanTally {
    pub total_checks: usize,
    pub passed: usize,
    pub failed: usize,
    pub warnings: usize,
    pub errors: usize,
    pub categories: Vec<CategoryScore>,
    pub critical_findings: Vec<SecurityFinding>,
    pub recommendations: Vec<String>,
}

/// A finished scan.
pub struct ScanReport {
    pub id: String,
    pub timestamp: u64,
    pub overall_score: u32,
    pub total_checks: usize,
    pub passed: usize,
    pub failed: usize,
    pub warnings: usize,
    pub errors: usize,
    pub category_scores: Vec<CategoryScore>,
    pub critical_findings: Vec<SecurityFinding>,
    pub recommendations: Vec<String>,
}

/// Scheduling and notification settings.
#[derive(Clone, Copy, PartialEq, Eq, Structural, Debug)]
pub struct ScanConfig {
    pub auto_scan_enabled: bool,
    pub scan_interval_hours: u64,
    pub notify_on_critical: bool,
    pub auto_remediate: bool,
}

impl ScanConfig {
    /// Daily automatic scans, notify on critical findings, no automatic fixes.
    pub open spec fn default_spec() -> ScanConfig {
        ScanConfig { auto_scan_enabled: true, scan_interval_hours: 24, notify_on_critical: true, auto_remediate: false }
    }
}

impl Default for ScanConfig {
    fn default() -> (c: ScanConfig)
        ensures
            c == ScanConfig::default_spec(),
    {
        ScanConfig { auto_scan_enabled: true, scan_interval_hours: 24, notify_on_critical: true, auto_remediate: false }
    }
}

/// Baseline and scan counts.
pub struct SecurityScanStats {
    pub total_baselines: usize,
    pub enabled_baselines: usize,
    pub total_scans: usize,
    pub latest_scan_score: Option<u32>,
    pub last_scan_time: Option<u64>,
}

// ---------------------------------------------------------------------------
// Checks
// ---------------------------------------------------------------------------

/// The outcome of checking a baseline.
pub open spec fn check_outcome(b: BaselineView) -> CheckStatus {
    match b.check_type {
        CheckType::PasswordStrength => if b.id == "baseline-002"@ { CheckStatus::Fail } else { CheckStatus::Pass },
        CheckType::ConfigValue => if b.id == "baseline-008"@ || b.id == "baseline-012"@ {
            CheckStatus::Warning
        } else {
            CheckStatus::Pass
        },
        CheckType::PortOpen => CheckStatus::Warning,
        _ => CheckStatus::Pass,
    }
}

/// Checks a baseline.
pub fn perform_check(check_type: CheckType, baseline: &SecurityBaseline) -> (st: CheckStatus)
    requires
        check_type == baseline.check_type,
    ensures
        st == check_outcome(baseline@),
{
    proof {
        reveal_strlit("baseline-001");
        reveal_strlit("baseline-002");
        reveal_strlit("baseline-005");
        reveal_strlit("baseline-007");
        reveal_strlit("baseline-008");
        reveal_strlit("baseline-012");
        assert("baseline-001"@[11] != "baseline-002"@[11]);
        assert("baseline-005"@[11] != "baseline-008"@[11]);
        assert("baseline-005"@[10] != "baseline-012"@[10]);
        assert("baseline-007"@[11] != "baseline-008"@[11]);
        assert("baseline-007"@[10] != "baseline-012"@[10]);
    }
    match check_type {
        CheckType::PasswordStrength => {
            if str_eq(baseline.id.as_str(), "baseline-001") {
                CheckStatus::Pass
            } else if str_eq(baseline.id.as_str(), "baseline-002") {
                CheckStatus::Fail
            } else {
                CheckStatus::Pass
            }
        }
        CheckType::EncryptionEnabled => CheckStatus::Pass,
        CheckType::LogEnabled => CheckStatus::Pass,
        CheckType::ConfigValue => {
            if str_eq(baseline.id.as_str(), "baseline-005") {
                CheckStatus::Pass
            } else if str_eq(baseline.id.as_str(), "baseline-007") {
                CheckStatus::Pass
            } else if str_eq(baseline.id.as_str(), "baseline-008") {
                CheckStatus::Warning
            } else if str_eq(baseline.id.as_str(), "baseline-012") {
                CheckStatus::Warning
            } else {
                CheckStatus::Pass
            }
        }
        CheckType::FilePermission => CheckStatus::Pass,
        CheckType::PortOpen => CheckStatus::Warning,
        _ => CheckStatus::Pass,
    }
}

/// The message explaining a check outcome.
pub open spec fn result_message(st: CheckStatus, b: BaselineView) -> Seq<char> {
    match st {
        CheckStatus::Pass => b.name + ": 通过"@,
        CheckStatus::Fail => b.name + ": 未通过 - "@ + b.remediation,
        CheckStatus::Warning => b.name + ": 警告 - "@ + b.remediation,
        CheckStatus::Error => b.name + ": 检查出错"@,
        CheckStatus::NotRun => b.name + ": 未执行"@,
    }
}

/// The message explaining a check outcome.
pub fn get_result_message(status: CheckStatus, baseline: &SecurityBaseline) -> (m: String)
    ensures
        m@ == result_message(status, baseline@),
{
    match status {
        CheckStatus::Pass => concat(baseline.name.as_str(), ": 通过"),
        CheckStatus::Fail => {
            let a = concat(baseline.name.as_str(), ": 未通过 - ");
            concat(a.as_str(), baseline.remediation.as_str())
        }
        CheckStatus::Warning => {
            let a = concat(baseline.name.as_str(), ": 警告 - ");
            concat(a.as_str(), baseline.remediation.as_str())
        }
        CheckStatus::Error => concat(baseline.name.as_str(), ": 检查出错"),
        CheckStatus::NotRun => concat(baseline.name.as_str(), ": 未执行"),
    }
}

/// The enabled baselines of `s`, in order.
pub open spec fn enabled_of(s: Seq<BaselineView>) -> Seq<BaselineView>
    decreases s.len(),
{
    if s.len() == 0 {
        seq![]
    } else if s.last().enabled {
        enabled_of(s.drop_last()).push(s.last())
    } else {
        enabled_of(s.drop_last())
    }
}

/// How many baselines of `s` have outcome `st`.
pub open spec fn outcome_count(s: Seq<BaselineView>, st: CheckStatus) -> nat
    decreases s.len(),
{
    if s.len() == 0 { 0 } else { outcome_count(s.drop_last(), st) + if check_outcome(s.last()) == st { 1nat } else { 0nat } }
}

/// Whether a failed baseline is reported as a finding.
pub open spec fn is_finding(b: BaselineView) -> bool {
    check_outcome(b) == CheckStatus::Fail && (b.severity == Severity::Critical || b.severity == Severity::High)
}

/// The baselines of `s` reported as findings, in order.
pub open spec fn findings_of(s: Seq<BaselineView>) -> Seq<BaselineView>
    decreases s.len(),
{
    if s.len() == 0 {
        seq![]
    } else if is_finding(s.last()) {
        findings_of(s.drop_last()).push(s.last())
    } else {
        findings_of(s.drop_last())
    }
}

/// The recommendation a baseline's outcome adds, if any.
pub open spec fn recommendation(b: BaselineView) -> Option<Seq<char>> {
    if check_outcome(b) == CheckStatus::Fail && b.severity == Severity::Critical {
        Some("【严重】"@ + b.remediation)
    } else if check_outcome(b) == CheckStatus::Warning {
        Some("【警告】"@ + b.remediation)
    } else {
        None
    }
}

/// The recommendations for `s`, in order.
pub open spec fn recommendations_of(s: Seq<BaselineView>) -> Seq<Seq<char>>
    decreases s.len(),
{
    if s.len() == 0 {
        seq![]
    } else {
        match recommendation(s.last()) {
            Some(r) => recommendations_of(s.drop_last()).push(r),
            None => recommendations_of(s.drop_last()),
        }
    }
}

/// Passed, failed and total checks of one category.
pub struct CategoryCounts {
    pub passed: nat,
    pub failed: nat,
    pub total: nat,
}

/// The per-category counts over `s`.
pub open spec fn category_counts(s: Seq<BaselineView>) -> Map<SecurityCategory, CategoryCounts>
    decreases s.len(),
{
    if s.len() == 0 {
        Map::empty()
    } else {
        let m = category_counts(s.drop_last());
        let b = s.last();
        let c = if m.dom().contains(b.category) { m[b.category] } else { CategoryCounts { passed: 0, failed: 0, total: 0 } };
        let st = check_outcome(b);
        m.insert(b.category, CategoryCounts {
            passed: c.passed + if st == CheckStatus::Pass { 1nat } else { 0nat },
            failed: c.failed + if st == CheckStatus::Fail { 1nat } else { 0nat },
            total: c.total + 1,
        })
    }
}

/// The plain content of a finding, without its random id.
pub open spec fn finding_matches(f: SecurityFinding, b: BaselineView) -> bool {
    &&& is_hyphenated_uuid(f.id@)
    &&& f.baseline_id@ == b.id && f.baseline_name@ == b.name
    &&& f.category == b.category && f.severity == b.severity
    &&& f.description@ == b.description && f.remediation@ == b.remediation
    &&& f.current_state@ == "未通过"@ && f.recommended_state@ == "通过"@
    &&& !f.auto_remediable
}

/// Whether the category entries of `v` are distinct and match `m` exactly.
pub open spec fn categories_match(v: Seq<CategoryScore>, m: Map<SecurityCategory, CategoryCounts>) -> bool {
    &&& forall|i: int, j: int| 0 <= i < v.len() && 0 <= j < v.len() && i != j ==> #[trigger] v[i].category != #[trigger] v[j].category
    &&& forall|c: SecurityCategory| #[trigger] m.dom().contains(c) <==> exists|i: int| 0 <= i < v.len() && #[trigger] v[i].category == c
    &&& forall|i: int| 0 <= i < v.len() ==> {
        let c = #[trigger] v[i].category;
        &&& v[i].checks_passed == m[c].passed
        &&& v[i].checks_failed == m[c].failed
        &&& v[i].checks_total == m[c].total
        &&& v[i].score == 0
    }
}

proof fn lemma_category_counts_bound(s: Seq<BaselineView>)
    ensures
        forall|c: SecurityCategory| #[trigger] category_counts(s).dom().contains(c) ==>
            category_counts(s)[c].passed <= s.len() && category_counts(s)[c].failed <= s.len() && category_counts(s)[c].total <= s.len(),
    decreases s.len(),
{
    if s.len() > 0 {
        lemma_category_counts_bound(s.drop_last());
        let m = category_counts(s.drop_last());
        assert forall|c: SecurityCategory| #[trigger] category_counts(s).dom().contains(c) implies
            category_counts(s)[c].passed <= s.len() && category_counts(s)[c].failed <= s.len() && category_counts(s)[c].total <= s.len() by {
            if m.dom().contains(c) {
                assert(m[c].total <= s.len() - 1);
            }
        }
    }
}

proof fn lemma_outcome_count_bound(s: Seq<BaselineView>, st: CheckStatus)
    ensures
        outcome_count(s, st) <= s.len(),
    decreases s.len(),
{
    if s.len() > 0 {
        lemma_outcome_count_bound(s.drop_last(), st);
    }
}

fn add_to_category(v: &mut Vec<CategoryScore>, c: SecurityCategory, st: CheckStatus, Ghost(m): Ghost<Map<SecurityCategory, CategoryCounts>>, Ghost(bound): Ghost<nat>)
    requires
        categories_match(old(v)@, m),
        forall|x: SecurityCategory| #[trigger] m.dom().contains(x) ==> m[x].passed < bound && m[x].failed < bound && m[x].total < bound,
        bound <= usize::MAX,
    ensures
        categories_match(final(v)@, m.insert(c, {
            let k = if m.dom().contains(c) { m[c] } else { CategoryCounts { passed: 0, failed: 0, total: 0 } };
            CategoryCounts {
                passed: k.passed + if st == CheckStatus::Pass { 1nat } else { 0nat },
                failed: k.failed + if st == CheckStatus::Fail { 1nat } else { 0nat },
                total: k.total + 1,
            }
        })),
{
    let ghost k = if m.dom().contains(c) { m[c] } else { CategoryCounts { passed: 0, failed: 0, total: 0 } };
    let ghost nk = CategoryCounts {
        passed: k.passed + if st == CheckStatus::Pass { 1nat } else { 0nat },
        failed: k.failed + if st == CheckStatus::Fail { 1nat } else { 0nat },
        total: k.total + 1,
    };
    let ghost m2 = m.insert(c, nk);
    let n = v.len();
    let mut i: usize = 0;
    while i < n
        invariant
            n == v@.len(),
            *v == *old(v),
            categories_match(v@, m),
            forall|x: SecurityCategory| #[trigger] m.dom().contains(x) ==> m[x].passed < bound && m[x].failed < bound && m[x].total < bound,
            bound <= usize::MAX,
            m2 == m.insert(c, nk),
            nk == (CategoryCounts {
                passed: k.passed + if st == CheckStatus::Pass { 1nat } else { 0nat },
                failed: k.failed + if st == CheckStatus::Fail { 1nat } else { 0nat },
                total: k.total + 1,
            }),
            k == if m.dom().contains(c) { m[c] } else { CategoryCounts { passed: 0, failed: 0, total: 0 } },
            i <= n,
            forall|j: int| 0 <= j < i ==> #[trigger] v@[j].category != c,
        decreases n - i,
    {
        if v[i].category == c {
            proof {
                assert(exists|j: int| 0 <= j < v@.len() && #[trigger] v@[j].category == c);
                assert(m.dom().contains(c));
            }
            let e = CategoryScore {
                category: c,
                score: 0,
                checks_passed: v[i].checks_passed + if st == CheckStatus::Pass { 1 } else { 0 },
                checks_failed: v[i].checks_failed + if st == CheckStatus::Fail { 1 } else { 0 },
                checks_total: v[i].checks_total + 1,
            };
            let ghost ov = v@;
            v.set(i, e);
            proof {
                assert forall|x: SecurityCategory| #[trigger] m2.dom().contains(x) <==> exists|j: int| 0 <= j < v@.len() && #[trigger] v@[j].category == x by {
                    if m2.dom().contains(x) && x != c {
                        let j = choose|j: int| 0 <= j < ov.len() && #[trigger] ov[j].category == x;
                        assert(v@[j].category == x);
                    }
                    if x == c {
                        assert(v@[i as int].category == x);
                    }
                    if exists|j: int| 0 <= j < v@.len() && #[trigger] v@[j].category == x {
                        let j = choose|j: int| 0 <= j < v@.len() && #[trigger] v@[j].category == x;
                        if j != i {
                            assert(ov[j].category == x);
                        }
                    }
                }
            }
            return;
        }
        i = i + 1;
    }
    proof { assert(!m.dom().contains(c)); }
    let ghost ov = v@;
    v.push(CategoryScore {
        category: c,
        score: 0,
        checks_passed: if st == CheckStatus::Pass { 1 } else { 0 },
        checks_failed: if st == CheckStatus::Fail { 1 } else { 0 },
        checks_total: 1,
    });
    proof {
        assert forall|x: SecurityCategory| #[trigger] m2.dom().contains(x) <==> exists|j: int| 0 <= j < v@.len() && #[trigger] v@[j].category == x by {
            if m2.dom().contains(x) && x != c {
                let j = choose|j: int| 0 <= j < ov.len() && #[trigger] ov[j].category == x;
                assert(v@[j].category == x);
            }
            if x == c {
                assert(v@[n as int].category == x);
            }
            if exists|j: int| 0 <= j < v@.len() && #[trigger] v@[j].category == x {
                let j = choose|j: int| 0 <= j < v@.len() && #[trigger] v@[j].category == x;
                if j != n {
                    assert(ov[j].category == x);
                }
            }
        }
    }
}

// ---------------------------------------------------------------------------
// Default baselines
// ---------------------------------------------------------------------------

/// The identifying fields of default baseline `i` (0..12): id, category,
/// severity and check type.
pub open spec fn default_baseline(i: int) -> (Seq<char>, SecurityCategory, Severity, CheckType) {
    if i == 0 { ("baseline-001"@, SecurityCategory::Authentication, Severity::High, CheckType::PasswordStrength) }
    else if i == 1 { ("baseline-002"@, SecurityCategory::Authentication, Severity::Critical, CheckType::PasswordStrength) }
    else if i == 2 { ("baseline-003"@, SecurityCategory::Cryptography, Severity::Critical, CheckType::EncryptionEnabled) }
    else if i == 3 { ("baseline-004"@, SecurityCategory::Logging, Severity::High, CheckType::LogEnabled) }
    else if i == 4 { ("baseline-005"@, SecurityCategory::Authentication, Severity::Medium, CheckType::ConfigValue) }
    else if i == 5 { ("baseline-006"@, SecurityCategory::Network, Severity::High, CheckType::ConfigValue) }
    else if i == 6 { ("baseline-007"@, SecurityCategory::Authentication, Severity::High, CheckType::ConfigValue) }
    else if i == 7 { ("baseline-008"@, SecurityCategory::Authentication, Severity::High, CheckType::ConfigValue) }
    else if i == 8 { ("baseline-009"@, SecurityCategory::DataProtection, Severity::Critical, CheckType::EncryptionEnabled) }
    else if i == 9 { ("baseline-010"@, SecurityCategory::Configuration, Severity::Medium, CheckType::FilePermission) }
    else if i == 10 { ("baseline-011"@, SecurityCategory::Network, Severity::Low, CheckType::PortOpen) }
    else { ("baseline-012"@, SecurityCategory::Authentication, Severity::Medium, CheckType::ConfigValue) }
}

/// The texts of default baseline `i` (0..12): name, description and remediation.
pub open spec fn default_baseline_text(i: int) -> (Seq<char>, Seq<char>, Seq<char>) {
    if i == 0 { ("强密码要求"@, "检查密码策略是否要求足够强度"@, "设置密码最小长度12位，包含大小写字母、数字和特殊字符"@) }
    else if i == 1 { ("RCON密码强度"@, "检查RCON密码是否为强密码"@, "使用至少16位的随机密码作为RCON密码"@) }
    else if i == 2 { ("SSL/TLS加密"@, "检查是否启用SSL/TLS加密"@, "启用HTTPS并配置有效的SSL证书"@) }
    else if i == 3 { ("审计日志启用"@, "检查安全审计日志是否启用"@, "启用审计日志并配置日志轮转"@) }
    else if i == 4 { ("会话超时"@, "检查会话超时配置是否合理"@, "将会话超时设置为30分钟以内"@) }
    else if i == 5 { ("IP黑名单检查"@, "检查是否存在已知的恶意IP"@, "定期更新IP黑名单，阻止已知的恶意IP"@) }
    else if i == 6 { ("暴力破解防护"@, "检查暴力破解防护是否启用"@, "启用登录尝试限制和账户锁定功能"@) }
    else if i == 7 { ("双因素认证"@, "检查是否为管理员启用双因素认证"@, "为所有管理员账户启用TOTP双因素认证"@) }
    else if i == 8 { ("敏感数据加密"@, "检查敏感数据是否加密存储"@, "使用AES-256加密敏感数据"@) }
    else if i == 9 { ("配置文件权限"@, "检查配置文件权限是否正确设置"@, "配置文件权限设置为600，仅管理员可读写"@) }
    else if i == 10 { ("默认端口变更"@, "检查是否使用了非默认端口"@, "将默认端口更改为非标准端口"@) }
    else { ("API密钥轮换"@, "检查API密钥是否定期轮换"@, "每90天轮换一次API密钥"@) }
}

/// Whether `b` is default baseline `i`, enabled.
pub open spec fn is_default_baseline(b: BaselineView, i: int) -> bool {
    let (id, category, severity, check_type) = default_baseline(i);
    let (name, description, remediation) = default_baseline_text(i);
    &&& b.id == id && b.category == category && b.severity == severity && b.check_type == check_type
    &&& b.name == name && b.description == description && b.remediation == remediation
    &&& b.enabled
}

fn make_baseline(
    id: &str, name: &str, description: &str, category: SecurityCategory, severity: Severity, check_type: CheckType, remediation: &str,
) -> (b: SecurityBaseline)
    ensures
        b@ == (BaselineView {
            id: id@, name: name@, description: description@, category, severity, check_type, enabled: true, remediation: remediation@,
        }),
{
    SecurityBaseline {
        id: owned(id),
        name: owned(name),
        description: owned(description),
        category,
        severity,
        check_type,
        enabled: true,
        remediation: owned(remediation),
    }
}

/// The twelve default baselines, all enabled.
pub fn default_baselines() -> (v: Vec<SecurityBaseline>)
    ensures
        v@.len() == 12,
        forall|i: int| 0 <= i < 12 ==> #[trigger] is_default_baseline(v@[i]@, i),
{
    let mut v: Vec<SecurityBaseline> = Vec::new();
    v.push(make_baseline("baseline-001", "强密码要求", "检查密码策略是否要求足够强度", SecurityCategory::Authentication,
        Severity::High, CheckType::PasswordStrength, "设置密码最小长度12位，包含大小写字母、数字和特殊字符"));
    v.push(make_baseline("baseline-002", "RCON密码强度", "检查RCON密码是否为强密码", SecurityCategory::Authentication,
        Severity::Critical, CheckType::PasswordStrength, "使用至少16位的随机密码作为RCON密码"));
    v.push(make_baseline("baseline-003", "SSL/TLS加密", "检查是否启用SSL/TLS加密", SecurityCategory::Cryptography,
        Severity::Critical, CheckType::EncryptionEnabled, "启用HTTPS并配置有效的SSL证书"));
    v.push(make_baseline("baseline-004", "审计日志启用", "检查安全审计日志是否启用", SecurityCategory::Logging,
        Severity::High, CheckType::LogEnabled, "启用审计日志并配置日志轮转"));
    v.push(make_baseline("baseline-005", "会话超时", "检查会话超时配置是否合理", SecurityCategory::Authentication,
        Severity::Medium, CheckType::ConfigValue, "将会话超时设置为30分钟以内"));
    v.push(make_baseline("baseline-006", "IP黑名单检查", "检查是否存在已知的恶意IP", SecurityCategory::Network,
        Severity::High, CheckType::ConfigValue, "定期更新IP黑名单，阻止已知的恶意IP"));
    v.push(make_baseline("baseline-007", "暴力破解防护", "检查暴力破解防护是否启用", SecurityCategory::Authentication,
        Severity::High, CheckType::ConfigValue, "启用登录尝试限制和账户锁定功能"));
    v.push(make_baseline("baseline-008", "双因素认证", "检查是否为管理员启用双因素认证", SecurityCategory::Authentication,
        Severity::High, CheckType::ConfigValue, "为所有管理员账户启用TOTP双因素认证"));
    v.push(make_baseline("baseline-009", "敏感数据加密", "检查敏感数据是否加密存储", SecurityCategory::DataProtection,
        Severity::Critical, CheckType::EncryptionEnabled, "使用AES-256加密敏感数据"));
    v.push(make_baseline("baseline-010", "配置文件权限", "检查配置文件权限是否正确设置", SecurityCategory::Configuration,
        Severity::Medium, CheckType::FilePermission, "配置文件权限设置为600，仅管理员可读写"));
    v.push(make_baseline("baseline-011", "默认端口变更", "检查是否使用了非默认端口", SecurityCategory::Network,
        Severity::Low, CheckType::PortOpen, "将默认端口更改为非标准端口"));
    v.push(make_baseline("baseline-012", "API密钥轮换", "检查API密钥是否定期轮换", SecurityCategory::Authentication,
        Severity::Medium, CheckType::ConfigValue, "每90天轮换一次API密钥"));
    v
}

// ---------------------------------------------------------------------------
// The scanner
// ---------------------------------------------------------------------------

/// The plain content of a finding.
pub struct FindingView {
    pub id: Seq<char>,
    pub baseline_id: Seq<char>,
    pub baseline_name: Seq<char>,
    pub category: SecurityCategory,
    pub severity: Severity,
    pub description: Seq<char>,
    pub current_state: Seq<char>,
    pub recommended_state: Seq<char>,
    pub remediation: Seq<char>,
    pub auto_remediable: bool,
}

impl View for SecurityFinding {
    type V = FindingView;

    open spec fn view(&self) -> FindingView {
        FindingView {
            id: self.id@,
            baseline_id: self.baseline_id@,
            baseline_name: self.baseline_name@,
            category: self.category,
            severity: self.severity,
            description: self.description@,
            current_state: self.current_state@,
            recommended_state: self.recommended_state@,
            remediation: self.remediation@,
            auto_remediable: self.auto_remediable,
        }
    }
}

impl SecurityFinding {
    /// A field-by-field copy.
    pub fn duplicate(&self) -> (r: SecurityFinding)
        ensures
            r@ == self@,
    {
        SecurityFinding {
            id: self.id.clone(),
            baseline_id: self.baseline_id.clone(),
            baseline_name: self.baseline_name.clone(),
            category: self.category,
            severity: self.severity,
            description: self.description.clone(),
            current_state: self.current_state.clone(),
            recommended_state: self.recommended_state.clone(),
            remediation: self.remediation.clone(),
            auto_remediable: self.auto_remediable,
        }
    }
}

/// The plain content of a report.
pub struct ReportView {
    pub id: Seq<char>,
    pub timestamp: u64,
    pub overall_score: u32,
    pub total_checks: usize,
    pub passed: usize,
    pub failed: usize,
    pub warnings: usize,
    pub errors: usize,
    pub category_scores: Seq<CategoryScore>,
    pub critical_findings: Seq<FindingView>,
    pub recommendations: Seq<Seq<char>>,
}

impl View for ScanReport {
    type V = ReportView;

    open spec fn view(&self) -> ReportView {
        ReportView {
            id: self.id@,
            timestamp: self.timestamp,
            overall_score: self.overall_score,
            total_checks: self.total_checks,
            passed: self.passed,
            failed: self.failed,
            warnings: self.warnings,
            errors: self.errors,
            category_scores: self.category_scores@,
            critical_findings: self.critical_findings@.map_values(|f: SecurityFinding| f@),
            recommendations: crate::text::strings_view(self.recommendations@),
        }
    }
}

impl ScanReport {
    /// A field-by-field copy.
    pub fn duplicate(&self) -> (r: ScanReport)
        ensures
            r@ == self@,
    {
        let n = self.critical_findings.len();
        let mut findings: Vec<SecurityFinding> = Vec::new();
        let mut i: usize = 0;
        while i < n
            invariant
                n == self.critical_findings@.len(),
                i <= n,
                findings@.map_values(|f: SecurityFinding| f@) == self.critical_findings@.map_values(|f: SecurityFinding| f@).subrange(0, i as int),
            decreases n - i,
        {
            let ghost before = findings@.map_values(|f: SecurityFinding| f@);
            findings.push(self.critical_findings[i].duplicate());
            assert(findings@.map_values(|f: SecurityFinding| f@) =~= before.push(self.critical_findings@[i as int]@));
            i = i + 1;
            assert(findings@.map_values(|f: SecurityFinding| f@) =~= self.critical_findings@.map_values(|f: SecurityFinding| f@).subrange(0, i as int));
        }
        assert(self.critical_findings@.map_values(|f: SecurityFinding| f@).subrange(0, n as int) =~= self.critical_findings@.map_values(|f: SecurityFinding| f@));
        ScanReport {
            id: self.id.clone(),
            timestamp: self.timestamp,
            overall_score: self.overall_score,
            total_checks: self.total_checks,
            passed: self.passed,
            failed: self.failed,
            warnings: self.warnings,
            errors: self.errors,
            category_scores: crate::text::copy_vec(&self.category_scores),
            critical_findings: findings,
            recommendations: crate::text::copy_strings(&self.recommendations),
        }
    }
}

/// Whether `t` is the tally of scanning baselines `bs`.
pub open spec fn is_tally_of(t: ScanTally, bs: Seq<BaselineView>) -> bool {
    let e = enabled_of(bs);
    &&& t.total_checks == e.len()
    &&& t.passed == outcome_count(e, CheckStatus::Pass)
    &&& t.failed == outcome_count(e, CheckStatus::Fail)
    &&& t.warnings == outcome_count(e, CheckStatus::Warning)
    &&& t.errors == outcome_count(e, CheckStatus::Error)
    &&& categories_match(t.categories@, category_counts(e))
    &&& t.critical_findings@.len() == findings_of(e).len()
    &&& forall|j: int| 0 <= j < findings_of(e).len() ==> #[trigger] finding_matches(t.critical_findings@[j], findings_of(e)[j])
    &&& crate::text::strings_view(t.recommendations@) == recommendations_of(e)
}

proof fn lemma_enabled_of_len(s: Seq<BaselineView>)
    ensures
        enabled_of(s).len() <= s.len(),
    decreases s.len(),
{
    if s.len() > 0 {
        lemma_enabled_of_len(s.drop_last());
    }
}

/// Baselines, past reports and settings.
pub struct SecurityScanner {
    baselines: Vec<SecurityBaseline>,
    reports: Vec<ScanReport>,
    config: ScanConfig,
}

impl SecurityScanner {
    /// The baselines, in order.
    pub closed spec fn baseline_list(&self) -> Seq<BaselineView> {
        self.baselines@.map_values(|b: SecurityBaseline| b@)
    }

    /// The reports, oldest first.
    pub closed spec fn report_list(&self) -> Seq<ReportView> {
        self.reports@.map_values(|r: ScanReport| r@)
    }

    /// The settings.
    pub closed spec fn config_view(&self) -> ScanConfig {
        self.config
    }

    /// The default baselines, no reports, default settings.
    pub fn new() -> (s: SecurityScanner)
        ensures
            s.baseline_list().len() == 12,
            forall|i: int| 0 <= i < 12 ==> #[trigger] is_default_baseline(s.baseline_list()[i], i),
            s.report_list() == Seq::<ReportView>::empty(),
            s.config_view() == ScanConfig::default_spec(),
    {
        let s = SecurityScanner { baselines: default_baselines(), reports: Vec::new(), config: ScanConfig { auto_scan_enabled: true, scan_interval_hours: 24, notify_on_critical: true, auto_remediate: false } };
        assert(s.report_list() =~= Seq::<ReportView>::empty());
        s
    }

    /// Replaces the settings.
    pub fn set_config(&mut self, config: ScanConfig)
        ensures
            final(self).config_view() == config,
            final(self).baseline_list() == old(self).baseline_list(),
            final(self).report_list() == old(self).report_list(),
    {
        self.config = config;
    }

    /// The settings.
    pub fn get_config(&self) -> (c: ScanConfig)
        ensures
            c == self.config_view(),
    {
        self.config
    }

    /// Replaces the baselines by the twelve defaults.
    pub fn init_default_baselines(&mut self)
        ensures
            final(self).baseline_list().len() == 12,
            forall|i: int| 0 <= i < 12 ==> #[trigger] is_default_baseline(final(self).baseline_list()[i], i),
            final(self).report_list() == old(self).report_list(),
            final(self).config_view() == old(self).config_view(),
    {
        self.baselines = default_baselines();
    }

    /// Copies of the baselines, in order.
    pub fn get_baselines(&self) -> (v: Vec<SecurityBaseline>)
        ensures
            v@.map_values(|b: SecurityBaseline| b@) == self.baseline_list(),
    {
        let n = self.baselines.len();
        let mut v: Vec<SecurityBaseline> = Vec::new();
        let mut i: usize = 0;
        while i < n
            invariant
                n == self.baselines@.len(),
                i <= n,
                v@.map_values(|b: SecurityBaseline| b@) == self.baseline_list().subrange(0, i as int),
            decreases n - i,
        {
            let ghost before = v@.map_values(|b: SecurityBaseline| b@);
            v.push(self.baselines[i].duplicate());
            assert(v@.map_values(|b: SecurityBaseline| b@) =~= before.push(self.baseline_list()[i as int]));
            i = i + 1;
            assert(v@.map_values(|b: SecurityBaseline| b@) =~= self.baseline_list().subrange(0, i as int));
        }
        assert(self.baseline_list().subrange(0, n as int) =~= self.baseline_list());
        v
    }

    /// A copy of the first baseline with id `id`, if any.
    pub fn get_baseline(&self, id: &str) -> (r: Option<SecurityBaseline>)
        ensures
            match r {
                Some(b) => exists|i: int| 0 <= i < self.baseline_list().len() && #[trigger] self.baseline_list()[i].id == id@
                    && b@ == self.baseline_list()[i] && forall|j: int| 0 <= j < i ==> #[trigger] self.baseline_list()[j].id != id@,
                None => forall|i: int| 0 <= i < self.baseline_list().len() ==> #[trigger] self.baseline_list()[i].id != id@,
            },
    {
        let n = self.baselines.len();
        let mut i: usize = 0;
        while i < n
            invariant
                n == self.baselines@.len(),
                i <= n,
                forall|j: int| 0 <= j < i ==> #[trigger] self.baseline_list()[j].id != id@,
            decreases n - i,
        {
            if str_eq(self.baselines[i].id.as_str(), id) {
                assert(self.baseline_list()[i as int].id == id@);
                return Some(self.baselines[i].duplicate());
            }
            assert(self.baseline_list()[i as int].id != id@);
            i = i + 1;
        }
        None
    }

    /// Turns the first baseline with id `id` on or off.
    pub fn enable_baseline(&mut self, id: &str, enabled: bool) -> (r: Result<(), String>)
        ensures
            final(self).report_list() == old(self).report_list(),
            final(self).config_view() == old(self).config_view(),
            match r {
                Ok(()) => exists|i: int| 0 <= i < old(self).baseline_list().len() && #[trigger] old(self).baseline_list()[i].id == id@
                    && (forall|j: int| 0 <= j < i ==> #[trigger] old(self).baseline_list()[j].id != id@)
                    && final(self).baseline_list() == old(self).baseline_list().update(i, BaselineView { enabled, ..old(self).baseline_list()[i] }),
                Err(e) => e@ == "Baseline not found"@ && final(self).baseline_list() == old(self).baseline_list()
                    && forall|i: int| 0 <= i < old(self).baseline_list().len() ==> #[trigger] old(self).baseline_list()[i].id != id@,
            },
    {
        let n = self.baselines.len();
        let mut i: usize = 0;
        while i < n
            invariant
                n == self.baselines@.len(),
                *self == *old(self),
                i <= n,
                forall|j: int| 0 <= j < i ==> #[trigger] self.baseline_list()[j].id != id@,
            decreases n - i,
        {
            if str_eq(self.baselines[i].id.as_str(), id) {
                let mut b = self.baselines[i].duplicate();
                b.enabled = enabled;
                let ghost bl = self.baseline_list();
                self.baselines.set(i, b);
                assert(self.baseline_list() =~= bl.update(i as int, BaselineView { enabled, ..bl[i as int] }));
                assert(old(self).baseline_list()[i as int].id == id@);
                return Ok(());
            }
            assert(self.baseline_list()[i as int].id != id@);
            i = i + 1;
        }
        Err(owned("Baseline not found"))
    }

    /// Runs every enabled baseline and tallies the outcomes: counts by outcome,
    /// per-category counts, findings for failed high and critical baselines (each
    /// under a fresh random id) and the recommendations.
    pub fn tally_scan(&self) -> (t: ScanTally)
        ensures
            is_tally_of(t, self.baseline_list()),
    {
        let ghost bs = self.baseline_list();
        let n = self.baselines.len();
        let mut total: usize = 0;
        let mut passed: usize = 0;
        let mut failed: usize = 0;
        let mut warnings: usize = 0;
        let mut errors: usize = 0;
        let mut categories: Vec<CategoryScore> = Vec::new();
        let mut findings: Vec<SecurityFinding> = Vec::new();
        let mut recommendations: Vec<String> = Vec::new();
        let mut i: usize = 0;
        proof {
            assert(bs.subrange(0, 0) =~= Seq::<BaselineView>::empty());
            assert(category_counts(Seq::<BaselineView>::empty()) =~= Map::<SecurityCategory, CategoryCounts>::empty());
        }
        while i < n
            invariant
                n == self.baselines@.len(),
                bs == self.baseline_list(),
                i <= n,
                ({
                    let e = enabled_of(bs.subrange(0, i as int));
                    &&& total == e.len()
                    &&& passed == outcome_count(e, CheckStatus::Pass)
                    &&& failed == outcome_count(e, CheckStatus::Fail)
                    &&& warnings == outcome_count(e, CheckStatus::Warning)
                    &&& errors == outcome_count(e, CheckStatus::Error)
                    &&& categories_match(categories@, category_counts(e))
                    &&& findings@.len() == findings_of(e).len()
                    &&& forall|j: int| 0 <= j < findings_of(e).len() ==> #[trigger] finding_matches(findings@[j], findings_of(e)[j])
                    &&& crate::text::strings_view(recommendations@) == recommendations_of(e)
                }),
            decreases n - i,
        {
            let ghost pre = bs.subrange(0, i as int);
            let ghost e0 = enabled_of(pre);
            proof {
                assert(bs.subrange(0, i + 1).drop_last() =~= pre);
                assert(bs.subrange(0, i + 1).last() == bs[i as int]);
                lemma_enabled_of_len(pre);
                lemma_outcome_count_bound(e0, CheckStatus::Pass);
                lemma_outcome_count_bound(e0, CheckStatus::Fail);
                lemma_outcome_count_bound(e0, CheckStatus::Warning);
                lemma_outcome_count_bound(e0, CheckStatus::Error);
                lemma_category_counts_bound(e0);
            }
            let b = &self.baselines[i];
            if b.enabled {
                let ghost e1 = e0.push(bs[i as int]);
                assert(enabled_of(bs.subrange(0, i + 1)) == e1);
                assert(e1.drop_last() =~= e0);
                let st = perform_check(b.check_type, b);
                total = total + 1;
                match st {
                    CheckStatus::Pass => { passed = passed + 1; }
                    CheckStatus::Fail => {
                        failed = failed + 1;
                        if b.severity == Severity::Critical || b.severity == Severity::High {
                            let f = SecurityFinding {
                                id: new_uuid_string(),
                                baseline_id: b.id.clone(),
                                baseline_name: b.name.clone(),
                                category: b.category,
                                severity: b.severity,
                                description: b.description.clone(),
                                current_state: owned("未通过"),
                                recommended_state: owned("通过"),
                                remediation: b.remediation.clone(),
                                auto_remediable: false,
                            };
                            findings.push(f);
                        }
                        if b.severity == Severity::Critical {
                            let ghost before = crate::text::strings_view(recommendations@);
                            recommendations.push(concat("【严重】", b.remediation.as_str()));
                            assert(crate::text::strings_view(recommendations@) =~= before.push("【严重】"@ + bs[i as int].remediation));
                        }
                    }
                    CheckStatus::Warning => {
                        warnings = warnings + 1;
                        let ghost before = crate::text::strings_view(recommendations@);
                        recommendations.push(concat("【警告】", b.remediation.as_str()));
                        assert(crate::text::strings_view(recommendations@) =~= before.push("【警告】"@ + bs[i as int].remediation));
                    }
                    CheckStatus::Error => { errors = errors + 1; }
                    CheckStatus::NotRun => {}
                }
                add_to_category(&mut categories, b.category, st, Ghost(category_counts(e0)), Ghost((i + 1) as nat));
                proof {
                    assert(category_counts(e1) == category_counts(e0).insert(bs[i as int].category, {
                        let k = if category_counts(e0).dom().contains(bs[i as int].category) { category_counts(e0)[bs[i as int].category] } else { CategoryCounts { passed: 0, failed: 0, total: 0 } };
                        CategoryCounts {
                            passed: k.passed + if st == CheckStatus::Pass { 1nat } else { 0nat },
                            failed: k.failed + if st == CheckStatus::Fail { 1nat } else { 0nat },
                            total: k.total + 1,
                        }
                    }));
                }
            } else {
                assert(enabled_of(bs.subrange(0, i + 1)) == e0);
            }
            i = i + 1;
        }
        proof { assert(bs.subrange(0, n as int) =~= bs); }
        ScanTally {
            total_checks: total,
            passed,
            failed,
            warnings,
            errors,
            categories,
            critical_findings: findings,
            recommendations,
        }
    }

    /// Files a scan: the report carries the tally, the overall score (100 when
    /// nothing was checked, otherwise `pass_percent`, the share of passed checks
    /// in percent as the caller computed it), each category's score (the share
    /// of its passed checks in percent as the caller computed it, given in the
    /// order of the tally's categories; see `scored`), a fresh random id and
    /// the current time. The report is kept and returned.
    pub fn finish_scan(&mut self, tally: ScanTally, pass_percent: u32, category_percents: Vec<u32>) -> (r: ScanReport)
        ensures
            is_hyphenated_uuid(r@.id),
            r@.overall_score == if tally.total_checks > 0 { pass_percent } else { 100 },
            r@.total_checks == tally.total_checks,
            r@.passed == tally.passed,
            r@.failed == tally.failed,
            r@.warnings == tally.warnings,
            r@.errors == tally.errors,
            r@.category_scores == scored(tally.categories@, category_percents@),
            r@.critical_findings == tally.critical_findings@.map_values(|f: SecurityFinding| f@),
            r@.recommendations == crate::text::strings_view(tally.recommendations@),
            final(self).report_list() == old(self).report_list().push(r@),
            final(self).baseline_list() == old(self).baseline_list(),
            final(self).config_view() == old(self).config_view(),
    {
        let overall = if tally.total_checks > 0 { pass_percent } else { 100 };
        let mut categories = tally.categories;
        let ghost cs = categories@;
        let n = categories.len();
        let mut i: usize = 0;
        while i < n
            invariant
                n == cs.len(),
                categories@.len() == n,
                i <= n,
                forall|k: int| 0 <= k < i ==> #[trigger] categories@[k] == scored(cs, category_percents@)[k],
                forall|k: int| i <= k < n ==> #[trigger] categories@[k] == cs[k],
            decreases n - i,
        {
            if i < category_percents.len() && categories[i].checks_total > 0 {
                let mut c = categories[i];
                c.score = category_percents[i];
                categories.set(i, c);
            }
            i = i + 1;
        }
        assert(categories@ =~= scored(cs, category_percents@));
        let report = ScanReport {
            id: new_uuid_string(),
            timestamp: now_millis_unsigned(),
            overall_score: overall,
            total_checks: tally.total_checks,
            passed: tally.passed,
            failed: tally.failed,
            warnings: tally.warnings,
            errors: tally.errors,
            category_scores: categories,
            critical_findings: tally.critical_findings,
            recommendations: tally.recommendations,
        };
        let copy = report.duplicate();
        let ghost before = self.report_list();
        self.reports.push(report);
        assert(self.report_list() =~= before.push(copy@));
        copy
    }

    /// Copies of the reports, oldest first.
    pub fn get_reports(&self) -> (v: Vec<ScanReport>)
        ensures
            v@.map_values(|r: ScanReport| r@) == self.report_list(),
    {
        let n = self.reports.len();
        let mut v: Vec<ScanReport> = Vec::new();
        let mut i: usize = 0;
        while i < n
            invariant
                n == self.reports@.len(),
                i <= n,
                v@.map_values(|r: ScanReport| r@) == self.report_list().subrange(0, i as int),
            decreases n - i,
        {
            let ghost before = v@.map_values(|r: ScanReport| r@);
            v.push(self.reports[i].duplicate());
            assert(v@.map_values(|r: ScanReport| r@) =~= before.push(self.report_list()[i as int]));
            i = i + 1;
            assert(v@.map_values(|r: ScanReport| r@) =~= self.report_list().subrange(0, i as int));
        }
        assert(self.report_list().subrange(0, n as int) =~= self.report_list());
        v
    }

    /// A copy of the newest report, if any.
    pub fn get_latest_report(&self) -> (r: Option<ScanReport>)
        ensures
            match r {
                Some(x) => self.report_list().len() > 0 && x@ == self.report_list().last(),
                None => self.report_list().len() == 0,
            },
    {
        let n = self.reports.len();
        if n == 0 {
            None
        } else {
            Some(self.reports[n - 1].duplicate())
        }
    }

    /// Baseline and scan counts, with the newest report's score and time.
    pub fn get_stats(&self) -> (st: SecurityScanStats)
        ensures
            st.total_baselines == self.baseline_list().len(),
            st.enabled_baselines == enabled_of(self.baseline_list()).len(),
            st.total_scans == self.report_list().len(),
            st.latest_scan_score == if self.report_list().len() > 0 { Some(self.report_list().last().overall_score) } else { None::<u32> },
            st.last_scan_time == if self.report_list().len() > 0 { Some(self.report_list().last().timestamp) } else { None::<u64> },
    {
        let ghost bs = self.baseline_list();
        let n = self.baselines.len();
        let mut enabled: usize = 0;
        let mut i: usize = 0;
        while i < n
            invariant
                n == self.baselines@.len(),
                bs == self.baseline_list(),
                i <= n,
                enabled == enabled_of(bs.subrange(0, i as int)).len(),
            decreases n - i,
        {
            proof {
                assert(bs.subrange(0, i + 1).drop_last() =~= bs.subrange(0, i as int));
                lemma_enabled_of_len(bs.subrange(0, i as int));
            }
            if self.baselines[i].enabled {
                enabled = enabled + 1;
            }
            i = i + 1;
        }
        proof { assert(bs.subrange(0, n as int) =~= bs); }
        let m = self.reports.len();
        let (score, time) = if m > 0 {
            (Some(self.reports[m - 1].overall_score), Some(self.reports[m - 1].timestamp))
        } else {
            (None, None)
        };
        SecurityScanStats {
            total_baselines: n,
            enabled_baselines: enabled,
            total_scans: m,
            latest_scan_score: score,
            last_scan_time: time,
        }
    }
}

impl Default for SecurityScanner {
    fn default() -> (s: SecurityScanner)
        ensures
            s.baseline_list().len() == 12,
            forall|i: int| 0 <= i < 12 ==> #[trigger] is_default_baseline(s.baseline_list()[i], i),
            s.report_list() == Seq::<ReportView>::empty(),
            s.config_view() == ScanConfig::default_spec(),
    {
        SecurityScanner::new()
    }
}

} // verus!
