//! Hot reloading of plugins: reload jobs and their outcomes, which reload
//! kinds a plugin supports, and the history of reloads. Whether RCON is
//! available, whether a plugin's configuration file exists and how long a
//! reload took are facts handed in by the owner; times are milliseconds.
use vstd::prelude::*;
use crate::keyed::{Keyed, Store, lemma_store_keys};
use crate::text::{owned, str_eq, lowercase, to_lowercase, has_substring, has_substring_exec, strings_view, copy_strings};
use crate::dup::{Duplicate, views};
use crate::ids::{new_uuid_string, is_hyphenated_uuid};
use crate::clock::now_millis_unsigned;

verus! {

/// What a reload refreshes.
#[derive(Clone, Copy, PartialEq, Eq, Structural, Debug)]
pub enum ReloadType {
    Full,
    Config,
    Commands,
    Permissions,
    Data,
}

/// Where a reload job stands.
#[derive(Clone, Copy, PartialEq, Eq, Structural, Debug)]
pub enum JobStatus {
    Pending,
    Running,
    Completed,
    Failed,
    Cancelled,
}

/// The outcome of a reload.
pub struct ReloadResult {
    pub success: bool,
    pub reload_time_ms: u64,
    pub changes_applied: Vec<String>,
    pub warnings: Vec<String>,
    pub server_restart_required: bool,
}

/// The plain content of a reload outcome.
pub struct ReloadResultView {
    pub success: bool,
    pub reload_time_ms: u64,
    pub changes_applied: Seq<Seq<char>>,
    pub warnings: Seq<Seq<char>>,
    pub server_restart_required: bool,
}

impl View for ReloadResult {
    type V = ReloadResultView;

    open spec fn view(&self) -> ReloadResultView {
        ReloadResultView {
            success: self.success,
            reload_time_ms: self.reload_time_ms,
            changes_applied: strings_view(self.changes_applied@),
            warnings: strings_view(self.warnings@),
            server_restart_required: self.server_restart_required,
        }
    }
}

/// One reload of one plugin.
pub struct ReloadJob {
    pub job_id: String,
    pub plugin_id: String,
    pub reload_type: ReloadType,
    pub status: JobStatus,
    pub started_at: u64,
    pub completed_at: Option<u64>,
    pub result: Option<ReloadResult>,
    pub errors: Vec<String>,
}

/// The plain content of a reload job.
pub struct ReloadJobView {
    pub job_id: Seq<char>,
    pub plugin_id: Seq<char>,
    pub reload_type: ReloadType,
    pub status: JobStatus,
    pub started_at: u64,
    pub completed_at: Option<u64>,
    pub result: Option<ReloadResultView>,
    pub errors: Seq<Seq<char>>,
}

impl View for ReloadJob {
    type V = ReloadJobView;

    open spec fn view(&self) -> ReloadJobView {
        ReloadJobView {
            job_id: self.job_id@,
            plugin_id: self.plugin_id@,
            reload_type: self.reload_type,
            status: self.status,
            started_at: self.started_at,
            completed_at: self.completed_at,
            result: match self.result {
                Some(r) => Some(r@),
                None => None,
            },
            errors: strings_view(self.errors@),
        }
    }
}

impl Duplicate for ReloadJob {
    fn dup(&self) -> (r: ReloadJob) {
        let errors = copy_strings(&self.errors);
        assert(strings_view(errors@) == strings_view(self.errors@));
        let result = match &self.result {
            Some(x) => {
                let c = copy_strings(&x.changes_applied);
                let w = copy_strings(&x.warnings);
                assert(strings_view(c@) == strings_view(x.changes_applied@));
                assert(strings_view(w@) == strings_view(x.warnings@));
                Some(ReloadResult {
                    success: x.success,
                    reload_time_ms: x.reload_time_ms,
                    changes_applied: c,
                    warnings: w,
                    server_restart_required: x.server_restart_required,
                })
            }
            None => None,
        };
        ReloadJob {
            job_id: self.job_id.clone(),
            plugin_id: self.plugin_id.clone(),
            reload_type: self.reload_type,
            status: self.status,
            started_at: self.started_at,
            completed_at: self.completed_at,
            result,
            errors,
        }
    }
}

impl Keyed for ReloadJob {
    open spec fn key_view(&self) -> Seq<char> {
        self.job_id@
    }

    fn key_str(&self) -> (r: &str) {
        self.job_id.as_str()
    }
}

// ---------------------------------------------------------------------------
// Running a reload
// ---------------------------------------------------------------------------

/// The changes a reload of kind `t` applies.
pub open spec fn reload_changes(t: ReloadType) -> Seq<Seq<char>> {
    match t {
        ReloadType::Full => seq!["Plugin fully reloaded"@, "Commands re-registered"@, "Event listeners re-initialized"@, "Permissions reloaded"@],
        ReloadType::Config => seq!["Configuration reloaded"@],
        ReloadType::Commands => seq!["Commands re-registered"@, "Command aliases updated"@],
        ReloadType::Permissions => seq!["Permissions cache cleared"@, "Group permissions reloaded"@],
        ReloadType::Data => seq!["Data sources reconnected"@, "Caches cleared"@],
    }
}

/// The warnings of a reload of kind `t`: a configuration reload warns when
/// the plugin has no configuration file.
pub open spec fn reload_warnings(t: ReloadType, config_found: bool) -> Seq<Seq<char>> {
    if t == ReloadType::Config && !config_found { seq!["Config file not found, using defaults"@] } else { seq![] }
}

/// Job `j` after running a reload of kind `t` that finished at `now` after
/// `elapsed_ms`: failed without RCON, otherwise completed with its changes
/// and warnings.
pub open spec fn executed(j: ReloadJobView, t: ReloadType, rcon: bool, config_found: bool, elapsed_ms: u64, now: u64) -> ReloadJobView {
    if !rcon {
        ReloadJobView {
            status: JobStatus::Failed,
            completed_at: Some(now),
            errors: j.errors.push("RCON not available for hot reload"@),
            ..j
        }
    } else {
        ReloadJobView {
            status: JobStatus::Completed,
            completed_at: Some(now),
            result: Some(ReloadResultView {
                success: true,
                reload_time_ms: elapsed_ms,
                changes_applied: reload_changes(t),
                warnings: reload_warnings(t, config_found),
                server_restart_required: false,
            }),
            ..j
        }
    }
}

/// The changes a reload of kind `t` applies.
fn make_changes(t: ReloadType) -> (v: Vec<String>)
    ensures
        strings_view(v@) == reload_changes(t),
{
    let v = match t {
        ReloadType::Full => vec![owned("Plugin fully reloaded"), owned("Commands re-registered"), owned("Event listeners re-initialized"), owned("Permissions reloaded")],
        ReloadType::Config => vec![owned("Configuration reloaded")],
        ReloadType::Commands => vec![owned("Commands re-registered"), owned("Command aliases updated")],
        ReloadType::Permissions => vec![owned("Permissions cache cleared"), owned("Group permissions reloaded")],
        ReloadType::Data => vec![owned("Data sources reconnected"), owned("Caches cleared")],
    };
    assert(strings_view(v@) =~= reload_changes(t));
    v
}

/// Runs a reload of kind `reload_type` on `job`: without RCON the job fails;
/// otherwise it completes with the changes of that kind, and a configuration
/// reload warns when `config_found` is false. `elapsed_ms` is how long the
/// reload took and `now` when it ended.
pub fn execute_reload(job: ReloadJob, reload_type: ReloadType, rcon_available: bool, config_found: bool, elapsed_ms: u64, now: u64) -> (r: ReloadJob)
    ensures
        r@ == executed(job@, reload_type, rcon_available, config_found, elapsed_ms, now),
{
    let mut job = job;
    job.status = JobStatus::Running;
    if !rcon_available {
        let ghost before = strings_view(job.errors@);
        job.errors.push(owned("RCON not available for hot reload"));
        assert(strings_view(job.errors@) =~= before.push("RCON not available for hot reload"@));
        job.status = JobStatus::Failed;
        job.completed_at = Some(now);
        return job;
    }
    let changes = make_changes(reload_type);
    let mut warnings: Vec<String> = Vec::new();
    if reload_type == ReloadType::Config && !config_found {
        warnings.push(owned("Config file not found, using defaults"));
    }
    assert(strings_view(warnings@) =~= reload_warnings(reload_type, config_found));
    job.status = JobStatus::Completed;
    job.result = Some(ReloadResult {
        success: true,
        reload_time_ms: elapsed_ms,
        changes_applied: changes,
        warnings,
        server_restart_required: false,
    });
    job.completed_at = Some(now);
    job
}

// ---------------------------------------------------------------------------
// What a plugin supports
// ---------------------------------------------------------------------------

/// Whether the lower-case form of `id` contains one of `names`.
pub open spec fn mentions_any(id: Seq<char>, names: Seq<Seq<char>>) -> bool {
    exists|k: int| 0 <= k < names.len() && #[trigger] has_substring(lowercase(id), names[k])
}

/// The plugins known to support hot reloading.
pub open spec fn reload_supporting() -> Seq<Seq<char>> {
    seq!["essentialsx"@, "worldedit"@, "worldguard"@, "luckperms"@, "vault"@, "placeholderapi"@, "coreprotect"@, "worldborder"@]
}

/// The permission plugins.
pub open spec fn permission_plugins() -> Seq<Seq<char>> {
    seq!["luckperms"@, "pex"@, "permissions"@]
}

/// The data-logging plugins.
pub open spec fn data_plugins() -> Seq<Seq<char>> {
    seq!["coreprotect"@, "prism"@, "logblock"@]
}

/// The reload kinds considered safe for plugin `id`.
pub open spec fn safe_methods(id: Seq<char>) -> Seq<ReloadType> {
    (if mentions_any(id, reload_supporting()) { seq![ReloadType::Full] } else { seq![] })
        + seq![ReloadType::Config]
        + (if mentions_any(id, permission_plugins()) { seq![ReloadType::Permissions, ReloadType::Commands] } else { seq![] })
        + (if mentions_any(id, data_plugins()) { seq![ReloadType::Data] } else { seq![] })
}

/// The error, if any, for reloading plugin `id` with kind `t`.
pub open spec fn reload_refusal(id: Seq<char>, t: ReloadType) -> Option<Seq<char>> {
    if !mentions_any(id, reload_supporting()) {
        Some("Plugin "@ + id + " may not support hot reload"@)
    } else if t == ReloadType::Permissions && !mentions_any(id, seq!["luckperms"@, "pex"@]) {
        Some("Reload type Permissions not supported by "@ + id)
    } else if t == ReloadType::Data && !mentions_any(id, seq!["coreprotect"@, "prism"@]) {
        Some("Reload type Data not supported by "@ + id)
    } else {
        None
    }
}

/// Whether `lower` (a lower-case plugin id) contains one of `names`.
fn mentions(lower: &str, names: &Vec<String>) -> (b: bool)
    ensures
        b == exists|k: int| 0 <= k < names@.len() && #[trigger] has_substring(lower@, strings_view(names@)[k]),
{
    let n = names.len();
    let mut k: usize = 0;
    while k < n
        invariant
            n == names@.len(),
            k <= n,
            forall|j: int| 0 <= j < k ==> !#[trigger] has_substring(lower@, strings_view(names@)[j]),
        decreases n - k,
    {
        if has_substring_exec(lower, names[k].as_str()) {
            assert(has_substring(lower@, strings_view(names@)[k as int]));
            return true;
        }
        k = k + 1;
    }
    false
}

/// Whether plugin `id` mentions one of `names` (as a vector of names).
fn id_mentions(lower: &str, names: Vec<String>, Ghost(id): Ghost<Seq<char>>, Ghost(spec_names): Ghost<Seq<Seq<char>>>) -> (b: bool)
    requires
        lower@ == lowercase(id),
        strings_view(names@) == spec_names,
    ensures
        b == mentions_any(id, spec_names),
{
    mentions(lower, &names)
}

impl HotReloadManager {
/// Whether plugin `plugin_id` is one known to support hot reloading (its
/// lower-case id contains the name of such a plugin).
pub fn detect_reload_support(&self, plugin_id: &str) -> (b: bool)
    ensures
        b == mentions_any(plugin_id@, reload_supporting()),
{
    let lower = to_lowercase(plugin_id);
    let names = vec![owned("essentialsx"), owned("worldedit"), owned("worldguard"), owned("luckperms"), owned("vault"),
        owned("placeholderapi"), owned("coreprotect"), owned("worldborder")];
    assert(strings_view(names@) =~= reload_supporting());
    id_mentions(lower.as_str(), names, Ghost(plugin_id@), Ghost(reload_supporting()))
}

/// The reload kinds considered safe for `plugin_id`: a full reload for
/// plugins known to support it, always a configuration reload, permission and
/// command reloads for permission plugins, a data reload for logging plugins.
pub fn get_safe_reload_methods(&self, plugin_id: &str) -> (v: Vec<ReloadType>)
    ensures
        v@ == safe_methods(plugin_id@),
{
    let lower = to_lowercase(plugin_id);
    let mut v: Vec<ReloadType> = Vec::new();
    if self.detect_reload_support(plugin_id) {
        v.push(ReloadType::Full);
    }
    v.push(ReloadType::Config);
    let perms = vec![owned("luckperms"), owned("pex"), owned("permissions")];
    assert(strings_view(perms@) =~= permission_plugins());
    if id_mentions(lower.as_str(), perms, Ghost(plugin_id@), Ghost(permission_plugins())) {
        v.push(ReloadType::Permissions);
        v.push(ReloadType::Commands);
    }
    let data = vec![owned("coreprotect"), owned("prism"), owned("logblock")];
    assert(strings_view(data@) =~= data_plugins());
    if id_mentions(lower.as_str(), data, Ghost(plugin_id@), Ghost(data_plugins())) {
        v.push(ReloadType::Data);
    }
    assert(v@ =~= safe_methods(plugin_id@));
    v
}

/// Whether a reload of kind `reload_type` may be tried on `plugin_id`: the
/// plugin must support hot reloading, a permission reload needs a permission
/// plugin and a data reload a logging plugin.
pub fn validate_reload(&self, plugin_id: &str, reload_type: ReloadType) -> (r: Result<(), String>)
    ensures
        match reload_refusal(plugin_id@, reload_type) {
            Some(e) => r matches Err(x) && x@ == e,
            None => r is Ok,
        },
{
    if !self.detect_reload_support(plugin_id) {
        return Err(owned("Plugin ").concat(plugin_id).concat(" may not support hot reload"));
    }
    let lower = to_lowercase(plugin_id);
    match reload_type {
        ReloadType::Permissions => {
            let names = vec![owned("luckperms"), owned("pex")];
            let ghost sn = seq!["luckperms"@, "pex"@];
            assert(strings_view(names@) =~= sn);
            if !id_mentions(lower.as_str(), names, Ghost(plugin_id@), Ghost(sn)) {
                return Err(owned("Reload type Permissions not supported by ").concat(plugin_id));
            }
        }
        ReloadType::Data => {
            let names = vec![owned("coreprotect"), owned("prism")];
            let ghost sn = seq!["coreprotect"@, "prism"@];
            assert(strings_view(names@) =~= sn);
            if !id_mentions(lower.as_str(), names, Ghost(plugin_id@), Ghost(sn)) {
                return Err(owned("Reload type Data not supported by ").concat(plugin_id));
            }
        }
        _ => {}
    }
    Ok(())
}

}

// ---------------------------------------------------------------------------
// The manager
// ---------------------------------------------------------------------------

/// A new pending job for a reload of kind `t` of plugin `plugin_id`, begun at `now`.
pub open spec fn pending_job(job_id: Seq<char>, plugin_id: Seq<char>, t: ReloadType, now: u64) -> ReloadJobView {
    ReloadJobView {
        job_id,
        plugin_id,
        reload_type: t,
        status: JobStatus::Pending,
        started_at: now,
        completed_at: None,
        result: None,
        errors: seq![],
    }
}

/// The jobs of `s` for plugin `id`, in order.
pub open spec fn jobs_of(s: Seq<ReloadJobView>, id: Seq<char>) -> Seq<ReloadJobView>
    decreases s.len(),
{
    if s.len() == 0 {
        seq![]
    } else if s.last().plugin_id == id {
        jobs_of(s.drop_last(), id).push(s.last())
    } else {
        jobs_of(s.drop_last(), id)
    }
}

/// How many leading jobs of `s` started no earlier than `x`.
pub open spec fn desc_pos(s: Seq<ReloadJobView>, x: ReloadJobView) -> nat
    decreases s.len(),
{
    if s.len() == 0 {
        0
    } else if s[0].started_at >= x.started_at {
        1 + desc_pos(s.drop_first(), x)
    } else {
        0
    }
}

/// `x` placed in `s` after the leading jobs that started no earlier than it.
pub open spec fn insert_desc(s: Seq<ReloadJobView>, x: ReloadJobView) -> Seq<ReloadJobView>
    decreases s.len(),
{
    if s.len() == 0 {
        seq![x]
    } else if s[0].started_at >= x.started_at {
        seq![s[0]] + insert_desc(s.drop_first(), x)
    } else {
        seq![x] + s
    }
}

/// The jobs of `s` newest first, jobs that started at the same time in the order of `s`.
pub open spec fn sort_desc(s: Seq<ReloadJobView>) -> Seq<ReloadJobView>
    decreases s.len(),
{
    if s.len() == 0 {
        seq![]
    } else {
        insert_desc(sort_desc(s.drop_last()), s.last())
    }
}

/// No job of `s` started later than one before it.
pub open spec fn sorted_desc(s: Seq<ReloadJobView>) -> bool {
    forall|i: int, j: int| 0 <= i < j < s.len() ==> #[trigger] s[i].started_at >= #[trigger] s[j].started_at
}

/// Whether job `j` is kept by a clean-up with cutoff `cutoff`: unfinished, or
/// finished after the cutoff.
pub open spec fn kept_job(j: ReloadJobView, cutoff: u64) -> bool {
    match j.completed_at {
        None => true,
        Some(t) => t > cutoff,
    }
}

/// The jobs of `m` kept by a clean-up with cutoff `cutoff`.
pub open spec fn cleaned(m: Map<Seq<char>, ReloadJobView>, cutoff: u64) -> Map<Seq<char>, ReloadJobView> {
    Map::new(|k: Seq<char>| m.dom().contains(k) && kept_job(m[k], cutoff), |k: Seq<char>| m[k])
}

/// The time `hours` hours before `now` (in milliseconds, at least zero).
pub open spec fn age_cutoff(now: u64, hours: u64) -> u64 {
    let span = hours * 3_600_000;
    if span >= now { 0 } else { (now - span) as u64 }
}

/// The time `hours` hours before `now` (in milliseconds, at least zero).
fn cutoff_of(now: u64, hours: u64) -> (c: u64)
    ensures
        c == age_cutoff(now, hours),
{
    if hours > now / 3_600_000 {
        assert(hours * 3_600_000 >= now) by (nonlinear_arith)
            requires hours > now / 3_600_000;
        0
    } else {
        assert(hours * 3_600_000 <= now) by (nonlinear_arith)
            requires hours <= now / 3_600_000;
        now - hours * 3_600_000
    }
}

/// `j` after a request to cancel it at `now`: a pending job is cancelled, a
/// running one records that it cannot be, any other is left alone.
pub open spec fn cancelled(j: ReloadJobView, now: u64) -> ReloadJobView {
    match j.status {
        JobStatus::Pending => ReloadJobView { status: JobStatus::Cancelled, completed_at: Some(now), ..j },
        JobStatus::Running => ReloadJobView { errors: j.errors.push("Cannot cancel running reload"@), ..j },
        _ => j,
    }
}

proof fn lemma_desc_pos(s: Seq<ReloadJobView>, x: ReloadJobView, p: int)
    requires
        0 <= p <= s.len(),
        forall|k: int| 0 <= k < p ==> s[k].started_at >= x.started_at,
        p == s.len() || s[p].started_at < x.started_at,
    ensures
        desc_pos(s, x) == p,
        insert_desc(s, x) == s.insert(p, x),
    decreases p,
{
    if p == 0 {
        assert(s.insert(0, x) =~= seq![x] + s);
        if s.len() == 0 {
            assert(insert_desc(s, x) =~= seq![x]);
        }
    } else {
        let t = s.drop_first();
        assert forall|k: int| 0 <= k < p - 1 implies t[k].started_at >= x.started_at by {
            assert(s[k + 1].started_at >= x.started_at);
        }
        lemma_desc_pos(t, x, p - 1);
        assert(s.insert(p, x) =~= seq![s[0]] + t.insert(p - 1, x));
    }
}

proof fn lemma_desc_pos_props(s: Seq<ReloadJobView>, x: ReloadJobView)
    ensures
        desc_pos(s, x) <= s.len(),
        forall|k: int| 0 <= k < desc_pos(s, x) ==> s[k].started_at >= x.started_at,
        desc_pos(s, x) == s.len() || s[desc_pos(s, x) as int].started_at < x.started_at,
    decreases s.len(),
{
    if s.len() > 0 && s[0].started_at >= x.started_at {
        let t = s.drop_first();
        lemma_desc_pos_props(t, x);
        assert forall|k: int| 0 <= k < desc_pos(s, x) implies s[k].started_at >= x.started_at by {
            if k > 0 {
                assert(s[k] == t[k - 1]);
            }
        }
    }
}

proof fn lemma_insert_keeps_order(s: Seq<ReloadJobView>, x: ReloadJobView)
    requires
        sorted_desc(s),
    ensures
        sorted_desc(insert_desc(s, x)),
        insert_desc(s, x).to_multiset() == s.to_multiset().insert(x),
{
    lemma_desc_pos_props(s, x);
    let p = desc_pos(s, x) as int;
    lemma_desc_pos(s, x, p);
    let r = s.insert(p, x);
    assert forall|i: int, j: int| 0 <= i < j < r.len() implies #[trigger] r[i].started_at >= #[trigger] r[j].started_at by {
        if j < p {
        } else if j == p {
            assert(r[i] == s[i]);
        } else if i < p {
            assert(r[j] == s[j - 1]);
            assert(s[i].started_at >= x.started_at);
            if p < s.len() {
                assert(s[p].started_at < x.started_at);
                assert(s[p].started_at >= s[j - 1].started_at || p == j - 1);
            }
        } else if i == p {
            assert(r[j] == s[j - 1]);
            assert(s[p].started_at < x.started_at);
            assert(s[p].started_at >= s[j - 1].started_at || p == j - 1);
        } else {
            assert(r[i] == s[i - 1]);
            assert(r[j] == s[j - 1]);
        }
    }
    vstd::seq_lib::to_multiset_insert(s, p, x);
}

proof fn lemma_sort_desc(s: Seq<ReloadJobView>)
    ensures
        sorted_desc(sort_desc(s)),
        sort_desc(s).to_multiset() == s.to_multiset(),
    decreases s.len(),
{
    if s.len() == 0 {
        assert(s =~= Seq::<ReloadJobView>::empty());
        assert(sort_desc(s) =~= s);
    } else {
        lemma_sort_desc(s.drop_last());
        lemma_insert_keeps_order(sort_desc(s.drop_last()), s.last());
        vstd::seq_lib::to_multiset_build(s.drop_last(), s.last());
        assert(s.drop_last().push(s.last()) =~= s);
    }
}

/// Reload jobs by id, whether RCON is available, and where plugins live.
pub struct HotReloadManager {
    plugins_dir: String,
    reload_jobs: Store<ReloadJob>,
    rcon_available: bool,
}

impl HotReloadManager {
    /// The jobs by id.
    pub closed spec fn jobs(&self) -> Map<Seq<char>, ReloadJobView> {
        self.reload_jobs.map().map_values(|j: ReloadJob| j@)
    }

    /// The jobs, in the order they are examined.
    pub closed spec fn job_list(&self) -> Seq<ReloadJobView> {
        views(self.reload_jobs.items())
    }

    /// Whether RCON is available.
    pub closed spec fn rcon(&self) -> bool {
        self.rcon_available
    }

    /// The directory of the plugins.
    pub closed spec fn dir(&self) -> Seq<char> {
        self.plugins_dir@
    }

    /// No jobs, RCON unavailable.
    pub fn new(plugins_dir: String) -> (m: HotReloadManager)
        ensures
            m.jobs() == Map::<Seq<char>, ReloadJobView>::empty(),
            m.job_list() == Seq::<ReloadJobView>::empty(),
            !m.rcon(),
            m.dir() == plugins_dir@,
    {
        let m = HotReloadManager { plugins_dir, reload_jobs: Store::new(), rcon_available: false };
        assert(m.jobs() =~= Map::<Seq<char>, ReloadJobView>::empty());
        assert(m.job_list() =~= Seq::<ReloadJobView>::empty());
        m
    }

    /// The directory of the plugins.
    pub fn plugins_dir(&self) -> (d: &str)
        ensures
            d@ == self.dir(),
    {
        self.plugins_dir.as_str()
    }

    /// Records whether RCON is available.
    pub fn set_rcon_status(&mut self, available: bool)
        ensures
            final(self).rcon() == available,
            final(self).jobs() == old(self).jobs(),
            final(self).job_list() == old(self).job_list(),
            final(self).dir() == old(self).dir(),
    {
        self.rcon_available = available;
    }

    /// Reloads plugin `plugin_id` with kind `reload_type`, begun at `started`
    /// and finished at `finished`: the job is recorded under a fresh id, run
    /// (see `executed`), recorded again and returned.
    pub fn reload_plugin_at(&mut self, plugin_id: &str, reload_type: ReloadType, config_found: bool, started: u64, finished: u64) -> (r: Result<ReloadJob, String>)
        ensures
            r matches Ok(j) && is_hyphenated_uuid(j@.job_id)
                && j@ == executed(pending_job(j@.job_id, plugin_id@, reload_type, started), reload_type, old(self).rcon(), config_found,
                    finished.saturating_sub(started), finished)
                && final(self).jobs() == old(self).jobs().insert(j@.job_id, j@),
            final(self).rcon() == old(self).rcon(),
            final(self).dir() == old(self).dir(),
    {
        let job_id = new_uuid_string();
        let job = ReloadJob {
            job_id: job_id.clone(),
            plugin_id: owned(plugin_id),
            reload_type,
            status: JobStatus::Pending,
            started_at: started,
            completed_at: None,
            result: None,
            errors: Vec::new(),
        };
        assert(strings_view(job.errors@) =~= Seq::<Seq<char>>::empty());
        assert(job@ == pending_job(job_id@, plugin_id@, reload_type, started));
        self.reload_jobs.upsert(job.dup());
        let done = execute_reload(job, reload_type, self.rcon_available, config_found, finished.saturating_sub(started), finished);
        let copy = done.dup();
        let ghost dv = done@;
        self.reload_jobs.upsert(done);
        assert(self.jobs() =~= old(self).jobs().insert(dv.job_id, dv));
        Ok(copy)
    }

    /// Reloads plugin `plugin_id` with kind `reload_type` now; `config_found`
    /// tells whether the plugin's configuration file exists.
    pub fn reload_plugin(&mut self, plugin_id: &str, reload_type: ReloadType, config_found: bool) -> (r: Result<ReloadJob, String>)
        ensures
            r matches Ok(j) && is_hyphenated_uuid(j@.job_id) && j@.plugin_id == plugin_id@ && j@.reload_type == reload_type
                && (j@.status == JobStatus::Completed <==> old(self).rcon())
                && final(self).jobs() == old(self).jobs().insert(j@.job_id, j@),
    {
        let started = now_millis_unsigned();
        let finished = now_millis_unsigned();
        self.reload_plugin_at(plugin_id, reload_type, config_found, started, finished)
    }

    /// A copy of the job with id `job_id`, if any.
    pub fn get_reload_job(&self, job_id: &str) -> (r: Option<ReloadJob>)
        ensures
            match r {
                Some(j) => self.jobs().dom().contains(job_id@) && j@ == self.jobs()[job_id@],
                None => !self.jobs().dom().contains(job_id@),
            },
    {
        match self.reload_jobs.get(job_id) {
            Some(j) => Some(j.dup()),
            None => None,
        }
    }

    /// Copies of the jobs of plugin `plugin_id`, newest first.
    pub fn get_plugin_reload_history(&self, plugin_id: &str) -> (r: Vec<ReloadJob>)
        ensures
            views(r@) == sort_desc(jobs_of(self.job_list(), plugin_id@)),
    {
        let items = self.reload_jobs.as_vec();
        let ghost s = self.job_list();
        let n = items.len();
        let mut r: Vec<ReloadJob> = Vec::new();
        let mut i: usize = 0;
        while i < n
            invariant
                n == items@.len(),
                views(items@) == s,
                i <= n,
                views(r@) == sort_desc(jobs_of(s.take(i as int), plugin_id@)),
            decreases n - i,
        {
            proof {
                assert(s.take(i + 1).drop_last() =~= s.take(i as int));
                assert(s.take(i + 1).last() == items@[i as int]@);
            }
            if str_eq(items[i].plugin_id.as_str(), plugin_id) {
                let x = items[i].dup();
                let m = r.len();
                let mut p: usize = 0;
                while p < m && r[p].started_at >= x.started_at
                    invariant
                        m == r@.len(),
                        p <= m,
                        forall|k: int| 0 <= k < p ==> views(r@)[k].started_at >= x@.started_at,
                    decreases m - p,
                {
                    p = p + 1;
                }
                let ghost before = views(r@);
                let ghost xv = x@;
                proof {
                    lemma_desc_pos(before, xv, p as int);
                    let t = jobs_of(s.take(i + 1), plugin_id@);
                    assert(t.drop_last() =~= jobs_of(s.take(i as int), plugin_id@));
                    assert(t.last() == xv);
                }
                r.insert(p, x);
                assert(views(r@) =~= before.insert(p as int, xv));
            }
            i = i + 1;
        }
        proof { assert(s.take(n as int) =~= s); }
        r
    }

    /// Cancels the job with id `job_id` at `now` if it is pending; a running
    /// job records that it cannot be cancelled. Nothing happens to other or
    /// unknown jobs.
    pub fn cancel_reload_at(&mut self, job_id: &str, now: u64) -> (r: Result<(), String>)
        ensures
            r is Ok,
            old(self).jobs().dom().contains(job_id@) ==> final(self).jobs() == old(self).jobs().insert(job_id@, cancelled(old(self).jobs()[job_id@], now)),
            !old(self).jobs().dom().contains(job_id@) ==> final(self).jobs() == old(self).jobs(),
            final(self).rcon() == old(self).rcon(),
            final(self).dir() == old(self).dir(),
    {
        proof { lemma_store_keys(self.reload_jobs); }
        let mut j = match self.reload_jobs.get(job_id) {
            Some(x) => x.dup(),
            None => return Ok(()),
        };
        match j.status {
            JobStatus::Pending => {
                j.status = JobStatus::Cancelled;
                j.completed_at = Some(now);
            }
            JobStatus::Running => {
                let ghost before = strings_view(j.errors@);
                j.errors.push(owned("Cannot cancel running reload"));
                assert(strings_view(j.errors@) =~= before.push("Cannot cancel running reload"@));
            }
            _ => {}
        }
        let ghost jv = j@;
        self.reload_jobs.upsert(j);
        assert(self.jobs() =~= old(self).jobs().insert(job_id@, jv));
        Ok(())
    }

    /// Cancels the job with id `job_id` now (see `cancel_reload_at`).
    pub fn cancel_reload(&mut self, job_id: &str) -> (r: Result<(), String>)
        ensures
            r is Ok,
            final(self).jobs().dom() == old(self).jobs().dom(),
            old(self).jobs().dom().contains(job_id@) ==> exists|now: u64| final(self).jobs() == old(self).jobs().insert(job_id@, cancelled(old(self).jobs()[job_id@], now)),
            !old(self).jobs().dom().contains(job_id@) ==> final(self).jobs() == old(self).jobs(),
    {
        let now = now_millis_unsigned();
        let r = self.cancel_reload_at(job_id, now);
        proof {
            if old(self).jobs().dom().contains(job_id@) {
                assert(self.jobs().dom() =~= old(self).jobs().dom());
            }
        }
        r
    }

    /// Drops the jobs that finished no later than `max_age_hours` hours before
    /// `now` (the cutoff saturating at zero); returns how many went.
    pub fn cleanup_old_jobs_at(&mut self, max_age_hours: u64, now: u64) -> (removed: usize)
        ensures
            final(self).jobs() == cleaned(old(self).jobs(), age_cutoff(now, max_age_hours)),
            removed == old(self).job_list().len() - final(self).job_list().len(),
            final(self).rcon() == old(self).rcon(),
            final(self).dir() == old(self).dir(),
    {
        let cutoff = cutoff_of(now, max_age_hours);
        self.reload_jobs.facts();
        let ghost om = self.reload_jobs.map();
        let ghost old_items = self.reload_jobs.items();
        let mut drop: Vec<String> = Vec::new();
        let ghost mut idx: Seq<int> = seq![];
        {
            let items = self.reload_jobs.as_vec();
            let n = items.len();
            let mut i: usize = 0;
            while i < n
                invariant
                    n == items@.len(),
                    items@ == old_items,
                    i <= n,
                    idx.len() == drop@.len(),
                    forall|a: int| 0 <= a < drop@.len() ==> 0 <= #[trigger] idx[a] < i
                        && old_items[idx[a]].key_view() == drop@[a]@ && !kept_job(old_items[idx[a]]@, cutoff),
                    forall|j: int| 0 <= j < i && !kept_job(old_items[j]@, cutoff) ==> #[trigger] strings_view(drop@).contains(old_items[j].key_view()),
                decreases n - i,
            {
                if !kept_job_exec(&items[i], cutoff) {
                    let ghost before = drop@;
                    drop.push(items[i].job_id.clone());
                    proof {
                        idx = idx.push(i as int);
                        assert forall|j: int| 0 <= j < i + 1 && !kept_job(old_items[j]@, cutoff) implies #[trigger] strings_view(drop@).contains(old_items[j].key_view()) by {
                            if j < i {
                                assert(strings_view(before).contains(old_items[j].key_view()));
                                let a = choose|a: int| 0 <= a < strings_view(before).len() && strings_view(before)[a] == old_items[j].key_view();
                                assert(strings_view(drop@)[a] == old_items[j].key_view());
                            } else {
                                assert(strings_view(drop@)[drop@.len() - 1] == old_items[j].key_view());
                            }
                        }
                    }
                }
                i = i + 1;
            }
        }
        let before_len = self.reload_jobs.len();
        let m = drop.len();
        let mut k: usize = 0;
        while k < m
            invariant
                m == drop@.len(),
                k <= m,
                self.reload_jobs.map() == Map::new(|key: Seq<char>| om.dom().contains(key) && !strings_view(drop@).take(k as int).contains(key), |key: Seq<char>| om[key]),
                self.reload_jobs.items().len() <= before_len,
                before_len == old_items.len(),
                self.rcon_available == old(self).rcon_available,
                self.plugins_dir == old(self).plugins_dir,
            decreases m - k,
        {
            let ghost cur = self.reload_jobs.map();
            let _ = self.reload_jobs.remove(drop[k].as_str());
            proof {
                let x = drop@[k as int]@;
                assert(strings_view(drop@).take(k + 1) =~= strings_view(drop@).take(k as int).push(x));
                assert forall|key: Seq<char>| strings_view(drop@).take(k + 1).contains(key)
                    <==> (strings_view(drop@).take(k as int).contains(key) || key == x) by {
                    let t = strings_view(drop@).take(k as int);
                    if t.push(x).contains(key) {
                        let a = choose|a: int| 0 <= a < t.push(x).len() && t.push(x)[a] == key;
                        if a < t.len() {
                            assert(t[a] == key);
                        }
                    }
                    if t.contains(key) {
                        let a = choose|a: int| 0 <= a < t.len() && t[a] == key;
                        assert(t.push(x)[a] == key);
                    }
                    if key == x {
                        assert(t.push(x)[t.len() as int] == key);
                    }
                }
                assert(self.reload_jobs.map() =~= Map::new(|key: Seq<char>| om.dom().contains(key) && !strings_view(drop@).take(k + 1).contains(key), |key: Seq<char>| om[key]));
            }
            k = k + 1;
        }
        proof {
            assert(strings_view(drop@).take(m as int) =~= strings_view(drop@));
            assert forall|key: Seq<char>| om.dom().contains(key) implies (strings_view(drop@).contains(key) <==> !kept_job(om[key]@, cutoff)) by {
                let j = choose|j: int| 0 <= j < old_items.len() && #[trigger] old_items[j].key_view() == key;
                assert(om[old_items[j].key_view()] == old_items[j]);
                if strings_view(drop@).contains(key) {
                    let a = choose|a: int| 0 <= a < strings_view(drop@).len() && strings_view(drop@)[a] == key;
                    assert(drop@[a]@ == key);
                    let j2 = idx[a];
                    assert(om[old_items[j2].key_view()] == old_items[j2]);
                }
            }
            assert(self.jobs() =~= cleaned(old(self).jobs(), cutoff));
        }
        before_len - self.reload_jobs.len()
    }

    /// Drops the jobs that finished `max_age_hours` hours or more ago.
    pub fn cleanup_old_jobs(&mut self, max_age_hours: u64) -> (removed: usize)
        ensures
            exists|now: u64| final(self).jobs() == cleaned(old(self).jobs(), age_cutoff(now, max_age_hours)),
            removed == old(self).job_list().len() - final(self).job_list().len(),
    {
        let now = now_millis_unsigned();
        self.cleanup_old_jobs_at(max_age_hours, now)
    }
}

/// Whether job `j` is kept by a clean-up with cutoff `cutoff`.
fn kept_job_exec(j: &ReloadJob, cutoff: u64) -> (b: bool)
    ensures
        b == kept_job(j@, cutoff),
{
    match j.completed_at {
        None => true,
        Some(t) => t > cutoff,
    }
}

// ---------------------------------------------------------------------------
// Laws
// ---------------------------------------------------------------------------

/// The reload history of a plugin is newest first and holds exactly the jobs
/// of that plugin.
pub proof fn law_history_is_sorted_permutation(s: Seq<ReloadJobView>, plugin_id: Seq<char>)
    ensures
        sorted_desc(sort_desc(jobs_of(s, plugin_id))),
        sort_desc(jobs_of(s, plugin_id)).to_multiset() == jobs_of(s, plugin_id).to_multiset(),
{
    lemma_sort_desc(jobs_of(s, plugin_id));
}

/// Without RCON a reload always fails and applies nothing.
pub proof fn law_no_rcon_no_reload(j: ReloadJobView, t: ReloadType, config_found: bool, elapsed_ms: u64, now: u64)
    ensures
        executed(j, t, false, config_found, elapsed_ms, now).status == JobStatus::Failed,
        executed(j, t, false, config_found, elapsed_ms, now).result == j.result,
{
}

/// A configuration reload is the only kind that can warn.
pub proof fn law_only_config_reload_warns(j: ReloadJobView, t: ReloadType, config_found: bool, elapsed_ms: u64, now: u64)
    requires
        t != ReloadType::Config,
    ensures
        executed(j, t, true, config_found, elapsed_ms, now).result matches Some(r) && r.warnings.len() == 0,
{
}

} // verus!
