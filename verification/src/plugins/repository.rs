//! Plugin repositories: the default ones, repositories added by users, their
//! order of priority, updates, and synchronisation with its status. A
//! repository's metadata is kept as the string entries of a JSON object;
//! saving repositories and testing a connection is the owner's work. Times
//! are milliseconds; ratings and scores are IEEE double bit patterns.
use vstd::prelude::*;
use crate::keyed::{Keyed, Store, lemma_store_keys};
use crate::text::{owned, str_eq, strings_view, copy_strings, opt_view, copy_opt_string, concat};
use crate::dup::{Duplicate, views, dup_vec};
use crate::ids::{new_uuid_string, is_hyphenated_uuid};
use crate::clock::now_millis_unsigned;
use crate::order::{Ranked, sort_desc, sorted_desc, lemma_desc_pos, lemma_sort_desc};
use crate::plugins::types::{Plugin, PluginView, PluginStats, PluginCompatibility, CompatibilityView};

verus! {

/// The kind of a plugin repository.
#[derive(Clone, Copy, PartialEq, Eq, Structural, Debug)]
pub enum RepositoryType {
    SpigotMC,
    Bukkit,
    Paper,
    Jenkins,
    Custom,
    GitHub,
}

/// Where a repository's synchronisation stands.
#[derive(Clone, Copy, PartialEq, Eq, Structural, Debug)]
pub enum SyncState {
    Idle,
    Syncing,
    Success,
    Failed,
}

/// A place plugins are fetched from.
pub struct CustomRepository {
    pub id: String,
    pub name: String,
    pub url: String,
    pub repo_type: RepositoryType,
    pub enabled: bool,
    pub priority: i32,
    pub last_sync: Option<u64>,
    pub plugins_count: i32,
    pub auth_required: bool,
    pub auth_token: Option<String>,
    pub metadata: Vec<(String, String)>,
}

/// The plain content of a repository.
pub struct RepositoryView {
    pub id: Seq<char>,
    pub name: Seq<char>,
    pub url: Seq<char>,
    pub repo_type: RepositoryType,
    pub enabled: bool,
    pub priority: i32,
    pub last_sync: Option<u64>,
    pub plugins_count: i32,
    pub auth_required: bool,
    pub auth_token: Option<Seq<char>>,
    pub metadata: Seq<(Seq<char>, Seq<char>)>,
}

/// The plain content of string pairs.
pub open spec fn pairs_view(v: Seq<(String, String)>) -> Seq<(Seq<char>, Seq<char>)> {
    v.map_values(|p: (String, String)| (p.0@, p.1@))
}

/// A copy of string pairs.
fn copy_pairs(v: &Vec<(String, String)>) -> (r: Vec<(String, String)>)
    ensures
        pairs_view(r@) == pairs_view(v@),
{
    let n = v.len();
    let mut r: Vec<(String, String)> = Vec::new();
    let mut i: usize = 0;
    while i < n
        invariant
            n == v@.len(),
            i <= n,
            pairs_view(r@) == pairs_view(v@).take(i as int),
        decreases n - i,
    {
        let ghost before = pairs_view(r@);
        let a = v[i].0.clone();
        let b = v[i].1.clone();
        let ghost pv = (a@, b@);
        r.push((a, b));
        assert(pv == pairs_view(v@)[i as int]);
        assert(pairs_view(r@) =~= before.push(pv));
        assert(pairs_view(r@) =~= pairs_view(v@).take(i + 1));
        i = i + 1;
    }
    assert(pairs_view(v@).take(n as int) =~= pairs_view(v@));
    r
}

impl View for CustomRepository {
    type V = RepositoryView;

    open spec fn view(&self) -> RepositoryView {
        RepositoryView {
            id: self.id@,
            name: self.name@,
            url: self.url@,
            repo_type: self.repo_type,
            enabled: self.enabled,
            priority: self.priority,
            last_sync: self.last_sync,
            plugins_count: self.plugins_count,
            auth_required: self.auth_required,
            auth_token: opt_view(self.auth_token),
            metadata: pairs_view(self.metadata@),
        }
    }
}

impl Duplicate for CustomRepository {
    fn dup(&self) -> (r: CustomRepository) {
        CustomRepository {
            id: self.id.clone(),
            name: self.name.clone(),
            url: self.url.clone(),
            repo_type: self.repo_type,
            enabled: self.enabled,
            priority: self.priority,
            last_sync: self.last_sync,
            plugins_count: self.plugins_count,
            auth_required: self.auth_required,
            auth_token: copy_opt_string(&self.auth_token),
            metadata: copy_pairs(&self.metadata),
        }
    }
}

impl Keyed for CustomRepository {
    open spec fn key_view(&self) -> Seq<char> {
        self.id@
    }

    fn key_str(&self) -> (r: &str) {
        self.id.as_str()
    }
}

/// Repositories are listed by priority, lowest number first.
impl Ranked for RepositoryView {
    open spec fn rank(&self) -> int {
        -(self.priority as int)
    }
}

/// The state of a repository's last synchronisation.
pub struct SyncStatus {
    pub repo_id: String,
    pub status: SyncState,
    pub last_sync: Option<u64>,
    pub plugins_count: i32,
    pub error: Option<String>,
}

/// The plain content of a synchronisation status.
pub struct SyncView {
    pub repo_id: Seq<char>,
    pub status: SyncState,
    pub last_sync: Option<u64>,
    pub plugins_count: i32,
    pub error: Option<Seq<char>>,
}

impl View for SyncStatus {
    type V = SyncView;

    open spec fn view(&self) -> SyncView {
        SyncView {
            repo_id: self.repo_id@,
            status: self.status,
            last_sync: self.last_sync,
            plugins_count: self.plugins_count,
            error: opt_view(self.error),
        }
    }
}

impl Duplicate for SyncStatus {
    fn dup(&self) -> (r: SyncStatus) {
        SyncStatus {
            repo_id: self.repo_id.clone(),
            status: self.status,
            last_sync: self.last_sync,
            plugins_count: self.plugins_count,
            error: copy_opt_string(&self.error),
        }
    }
}

impl Keyed for SyncStatus {
    open spec fn key_view(&self) -> Seq<char> {
        self.repo_id@
    }

    fn key_str(&self) -> (r: &str) {
        self.repo_id.as_str()
    }
}

/// The changes asked of a repository: each present field is applied.
pub struct RepositoryUpdates {
    pub name: Option<String>,
    pub enabled: Option<bool>,
    pub priority: Option<i64>,
    pub auth_token: Option<String>,
}

// ---------------------------------------------------------------------------
// What the operations do
// ---------------------------------------------------------------------------

/// A repository with the given parts, never synchronised and unauthenticated
/// unless `token` is given.
pub open spec fn repository(id: Seq<char>, name: Seq<char>, url: Seq<char>, t: RepositoryType, priority: i32,
    last_sync: Option<u64>, count: i32, token: Option<Seq<char>>, metadata: Seq<(Seq<char>, Seq<char>)>) -> RepositoryView {
    RepositoryView {
        id,
        name,
        url,
        repo_type: t,
        enabled: true,
        priority,
        last_sync,
        plugins_count: count,
        auth_required: token is Some,
        auth_token: token,
        metadata,
    }
}

/// The default SpigotMC repository, last synchronised at `now`.
pub open spec fn spigot_repo(id: Seq<char>, now: u64) -> RepositoryView {
    repository(id, "SpigotMC"@, "https://hub.spigotmc.org"@, RepositoryType::SpigotMC, 1, Some(now), 50000, None,
        seq![("api_endpoint"@, "/resources/items"@), ("download_endpoint"@, "/builds/downloads"@)])
}

/// The default Bukkit repository, last synchronised at `now`.
pub open spec fn bukkit_repo(id: Seq<char>, now: u64) -> RepositoryView {
    repository(id, "Bukkit"@, "https://dev.bukkit.org"@, RepositoryType::Bukkit, 2, Some(now), 30000, None, seq![])
}

/// The default PaperMC repository, last synchronised at `now`.
pub open spec fn paper_repo(id: Seq<char>, now: u64) -> RepositoryView {
    repository(id, "PaperMC"@, "https://papermc.io"@, RepositoryType::Paper, 3, Some(now), 10000, None, seq![])
}

/// `r` with `u` applied: a new name, enabled flag, priority (truncated to 32
/// bits) and token, each when given; a token makes the repository require
/// authentication.
pub open spec fn updated(r: RepositoryView, u: (Option<Seq<char>>, Option<bool>, Option<i64>, Option<Seq<char>>)) -> RepositoryView {
    RepositoryView {
        name: match u.0 { Some(n) => n, None => r.name },
        enabled: match u.1 { Some(e) => e, None => r.enabled },
        priority: match u.2 { Some(p) => p as i32, None => r.priority },
        auth_token: match u.3 { Some(t) => Some(t), None => r.auth_token },
        auth_required: if u.3 is Some { true } else { r.auth_required },
        ..r
    }
}

/// The plain content of a set of updates.
pub open spec fn updates_view(u: RepositoryUpdates) -> (Option<Seq<char>>, Option<bool>, Option<i64>, Option<Seq<char>>) {
    (opt_view(u.name), u.enabled, u.priority, opt_view(u.auth_token))
}

/// How many plugins a synchronisation of a repository of kind `t` finds.
pub open spec fn sync_count(t: RepositoryType) -> i32 {
    match t {
        RepositoryType::SpigotMC => 50000,
        RepositoryType::Bukkit => 30000,
        RepositoryType::Paper => 10000,
        RepositoryType::Jenkins => 5000,
        RepositoryType::GitHub => 1000,
        RepositoryType::Custom => 100,
    }
}

/// The status after synchronising repository `id` at `now`, where `repo` is
/// the repository when it is known.
pub open spec fn sync_result(id: Seq<char>, repo: Option<RepositoryView>, now: u64) -> SyncView {
    match repo {
        Some(r) => SyncView { repo_id: id, status: SyncState::Success, last_sync: Some(now), plugins_count: sync_count(r.repo_type), error: None },
        None => SyncView { repo_id: id, status: SyncState::Failed, last_sync: None, plugins_count: 0, error: Some("Repository not found"@) },
    }
}

/// The bit pattern of the double 4.5.
pub const EXAMPLE_RATING_BITS: u64 = 0x4012_0000_0000_0000u64;
/// The bit pattern of the double 85.0.
pub const EXAMPLE_SCORE_BITS: u64 = 0x4055_4000_0000_0000u64;

/// The example plugin a search for `query` finds, with id `id`, at `now`.
pub open spec fn example_plugin(id: Seq<char>, query: Seq<char>, now: u64) -> PluginView {
    PluginView {
        id,
        name: "Example Plugin for "@ + query,
        plugin_id: 1,
        version: "1.0.0"@,
        file_id: 1,
        download_url: "https://example.com/plugin.jar"@,
        file_name: "example.jar"@,
        file_size: 1024000,
        upload_date: now,
        description: Some("Example plugin"@),
        authors: seq!["Author"@],
        category: "General"@,
        tags: seq!["example"@],
        source_url: None,
        issue_tracker: None,
        website: None,
        supported_versions: seq!["1.20.4"@],
        stats: PluginStats { downloads: 1000, likes: 100, reviews_count: 50, average_rating_bits: EXAMPLE_RATING_BITS },
        compatibility: CompatibilityView {
            compatibility_score_bits: EXAMPLE_SCORE_BITS,
            server_version: "1.20.4"@,
            api_version: "1.20"@,
            known_issues: seq![],
            verified: false,
        },
        is_premium: false,
        price_bits: None,
    }
}

/// How many plugins a synchronisation of a repository of kind `t` finds.
fn perform_sync(t: RepositoryType) -> (r: Result<i32, String>)
    ensures
        r matches Ok(n) && n == sync_count(t),
{
    match t {
        RepositoryType::SpigotMC => Ok(50000),
        RepositoryType::Bukkit => Ok(30000),
        RepositoryType::Paper => Ok(10000),
        RepositoryType::Jenkins => Ok(5000),
        RepositoryType::GitHub => Ok(1000),
        RepositoryType::Custom => Ok(100),
    }
}

// ---------------------------------------------------------------------------
// The manager
// ---------------------------------------------------------------------------

/// The repositories by id, the synchronisation status by repository, and
/// where the repositories are saved.
pub struct RepositoryManager {
    repositories_dir: String,
    repositories: Store<CustomRepository>,
    sync_status: Store<SyncStatus>,
}

impl RepositoryManager {
    /// The repositories by id.
    pub closed spec fn repos(&self) -> Map<Seq<char>, RepositoryView> {
        self.repositories.map().map_values(|r: CustomRepository| r@)
    }

    /// The repositories, in the order they are examined.
    pub closed spec fn repo_list(&self) -> Seq<RepositoryView> {
        views(self.repositories.items())
    }

    /// The synchronisation status by repository id.
    pub closed spec fn syncs(&self) -> Map<Seq<char>, SyncView> {
        self.sync_status.map().map_values(|s: SyncStatus| s@)
    }

    /// The directory the repositories are saved in.
    pub closed spec fn dir(&self) -> Seq<char> {
        self.repositories_dir@
    }

    /// No repositories, saved in `repositories_dir`.
    pub fn new(repositories_dir: String) -> (m: RepositoryManager)
        ensures
            m.repos() == Map::<Seq<char>, RepositoryView>::empty(),
            m.repo_list() == Seq::<RepositoryView>::empty(),
            m.syncs() == Map::<Seq<char>, SyncView>::empty(),
            m.dir() == repositories_dir@,
    {
        let m = RepositoryManager { repositories_dir, repositories: Store::new(), sync_status: Store::new() };
        assert(m.repos() =~= Map::<Seq<char>, RepositoryView>::empty());
        assert(m.repo_list() =~= Seq::<RepositoryView>::empty());
        assert(m.syncs() =~= Map::<Seq<char>, SyncView>::empty());
        m
    }

    /// The directory the repositories are saved in.
    pub fn repositories_dir(&self) -> (d: &str)
        ensures
            d@ == self.dir(),
    {
        self.repositories_dir.as_str()
    }

    /// Records `r` under its id (as loading saved repositories does).
    pub fn insert_repository(&mut self, r: CustomRepository)
        ensures
            final(self).repos() == old(self).repos().insert(r@.id, r@),
            final(self).syncs() == old(self).syncs(),
            final(self).dir() == old(self).dir(),
    {
        let ghost rv = r@;
        self.repositories.upsert(r);
        assert(self.repos() =~= old(self).repos().insert(rv.id, rv));
    }

    /// When there are no repositories, records SpigotMC, Bukkit and PaperMC
    /// under fresh ids, synchronised at `now`; returns whether it did.
    pub fn setup_default_repositories_at(&mut self, now: u64) -> (added: bool)
        ensures
            added == (old(self).repos().len() == 0),
            !added ==> final(self).repos() == old(self).repos(),
            added ==> exists|a: Seq<char>, b: Seq<char>, c: Seq<char>|
                final(self).repos() == old(self).repos().insert(a, spigot_repo(a, now)).insert(b, bukkit_repo(b, now)).insert(c, paper_repo(c, now)),
            final(self).syncs() == old(self).syncs(),
            final(self).dir() == old(self).dir(),
    {
        self.repositories.facts();
        assert(self.repos().dom() =~= self.repositories.map().dom());
        if self.repositories.len() > 0 {
            return false;
        }
        let spigot = CustomRepository {
            id: new_uuid_string(),
            name: owned("SpigotMC"),
            url: owned("https://hub.spigotmc.org"),
            repo_type: RepositoryType::SpigotMC,
            enabled: true,
            priority: 1,
            last_sync: Some(now),
            plugins_count: 50000,
            auth_required: false,
            auth_token: None,
            metadata: vec![(owned("api_endpoint"), owned("/resources/items")), (owned("download_endpoint"), owned("/builds/downloads"))],
        };
        let bukkit = CustomRepository {
            id: new_uuid_string(),
            name: owned("Bukkit"),
            url: owned("https://dev.bukkit.org"),
            repo_type: RepositoryType::Bukkit,
            enabled: true,
            priority: 2,
            last_sync: Some(now),
            plugins_count: 30000,
            auth_required: false,
            auth_token: None,
            metadata: Vec::new(),
        };
        let paper = CustomRepository {
            id: new_uuid_string(),
            name: owned("PaperMC"),
            url: owned("https://papermc.io"),
            repo_type: RepositoryType::Paper,
            enabled: true,
            priority: 3,
            last_sync: Some(now),
            plugins_count: 10000,
            auth_required: false,
            auth_token: None,
            metadata: Vec::new(),
        };
        let ghost (a, b, c) = (spigot@.id, bukkit@.id, paper@.id);
        assert(pairs_view(spigot.metadata@) =~= seq![("api_endpoint"@, "/resources/items"@), ("download_endpoint"@, "/builds/downloads"@)]);
        assert(pairs_view(bukkit.metadata@) =~= Seq::<(Seq<char>, Seq<char>)>::empty());
        assert(pairs_view(paper.metadata@) =~= Seq::<(Seq<char>, Seq<char>)>::empty());
        assert(spigot@ =~= spigot_repo(a, now));
        assert(bukkit@ =~= bukkit_repo(b, now));
        assert(paper@ =~= paper_repo(c, now));
        self.insert_repository(spigot);
        self.insert_repository(bukkit);
        self.insert_repository(paper);
        true
    }

    /// Records a repository named `name` at `url` of kind `repo_type` under a
    /// fresh id, with priority 10, enabled, never synchronised, requiring
    /// authentication when `auth_token` is given, and with its URL as
    /// "custom_url" metadata; returns a copy.
    pub fn add_repository(&mut self, name: String, url: String, repo_type: RepositoryType, auth_token: Option<String>) -> (r: Result<CustomRepository, String>)
        ensures
            r matches Ok(repo) && is_hyphenated_uuid(repo@.id)
                && repo@ == repository(repo@.id, name@, url@, repo_type, 10, None, 0, opt_view(auth_token), seq![("custom_url"@, url@)])
                && final(self).repos() == old(self).repos().insert(repo@.id, repo@),
            final(self).syncs() == old(self).syncs(),
            final(self).dir() == old(self).dir(),
    {
        let meta = vec![(owned("custom_url"), url.clone())];
        let repo = CustomRepository {
            id: new_uuid_string(),
            name,
            url,
            repo_type,
            enabled: true,
            priority: 10,
            last_sync: None,
            plugins_count: 0,
            auth_required: auth_token.is_some(),
            auth_token,
            metadata: meta,
        };
        assert(pairs_view(repo.metadata@) =~= seq![("custom_url"@, repo.url@)]);
        let copy = repo.dup();
        self.insert_repository(repo);
        Ok(copy)
    }

    /// Copies of all repositories, lowest priority number first (ties in
    /// the order kept).
    pub fn get_repositories(&self) -> (r: Vec<CustomRepository>)
        ensures
            views(r@) == sort_desc(self.repo_list()),
    {
        let items = self.repositories.as_vec();
        let ghost s = self.repo_list();
        let n = items.len();
        let mut r: Vec<CustomRepository> = Vec::new();
        let mut i: usize = 0;
        while i < n
            invariant
                n == items@.len(),
                views(items@) == s,
                i <= n,
                views(r@) == sort_desc(s.take(i as int)),
            decreases n - i,
        {
            let x = items[i].dup();
            let m = r.len();
            let mut p: usize = 0;
            while p < m && r[p].priority <= x.priority
                invariant
                    m == r@.len(),
                    p <= m,
                    forall|k: int| 0 <= k < p ==> #[trigger] views(r@)[k].rank() >= x@.rank(),
                decreases m - p,
            {
                p = p + 1;
            }
            let ghost before = views(r@);
            let ghost xv = x@;
            proof {
                lemma_desc_pos(before, xv, p as int);
                assert(s.take(i + 1).drop_last() =~= s.take(i as int));
                assert(s.take(i + 1).last() == xv);
            }
            r.insert(p, x);
            assert(views(r@) =~= before.insert(p as int, xv));
            i = i + 1;
        }
        proof { assert(s.take(n as int) =~= s); }
        r
    }

    /// A copy of repository `repo_id`, if any.
    pub fn get_repository(&self, repo_id: &str) -> (r: Option<CustomRepository>)
        ensures
            match r {
                Some(x) => self.repos().dom().contains(repo_id@) && x@ == self.repos()[repo_id@],
                None => !self.repos().dom().contains(repo_id@),
            },
    {
        match self.repositories.get(repo_id) {
            Some(x) => Some(x.dup()),
            None => None,
        }
    }

    /// Applies `updates` to repository `repo_id` (see `updated`) and returns
    /// a copy; an unknown id is an error.
    pub fn update_repository(&mut self, repo_id: &str, updates: RepositoryUpdates) -> (r: Result<CustomRepository, String>)
        ensures
            match r {
                Ok(x) => old(self).repos().dom().contains(repo_id@)
                    && x@ == updated(old(self).repos()[repo_id@], updates_view(updates))
                    && final(self).repos() == old(self).repos().insert(repo_id@, x@),
                Err(e) => !old(self).repos().dom().contains(repo_id@) && e@ == "Repository not found"@
                    && final(self).repos() == old(self).repos(),
            },
            final(self).syncs() == old(self).syncs(),
            final(self).dir() == old(self).dir(),
    {
        proof { lemma_store_keys(self.repositories); }
        let mut repo = match self.repositories.get(repo_id) {
            Some(x) => x.dup(),
            None => return Err(owned("Repository not found")),
        };
        let ghost uv = updates_view(updates);
        if let Some(name) = updates.name {
            repo.name = name;
        }
        if let Some(enabled) = updates.enabled {
            repo.enabled = enabled;
        }
        if let Some(priority) = updates.priority {
            repo.priority = priority as i32;
        }
        if let Some(token) = updates.auth_token {
            repo.auth_token = Some(token);
            repo.auth_required = true;
        }
        assert(repo@ == updated(old(self).repos()[repo_id@], uv));
        let copy = repo.dup();
        self.insert_repository(repo);
        Ok(copy)
    }

    /// Forgets repository `repo_id`.
    pub fn delete_repository(&mut self, repo_id: &str) -> (r: Result<(), String>)
        ensures
            r is Ok,
            final(self).repos() == old(self).repos().remove(repo_id@),
            final(self).syncs() == old(self).syncs(),
            final(self).dir() == old(self).dir(),
    {
        let _ = self.repositories.remove(repo_id);
        assert(self.repos() =~= old(self).repos().remove(repo_id@));
        Ok(())
    }

    /// Records `st` as the status of its repository.
    fn set_status(&mut self, st: SyncStatus)
        ensures
            final(self).syncs() == old(self).syncs().insert(st@.repo_id, st@),
            final(self).repos() == old(self).repos(),
            final(self).repo_list() == old(self).repo_list(),
            final(self).dir() == old(self).dir(),
    {
        let ghost sv = st@;
        self.sync_status.upsert(st);
        assert(self.syncs() =~= old(self).syncs().insert(sv.repo_id, sv));
    }

    /// Synchronises repository `repo_id` at `now`: its status is syncing,
    /// then success with the plugins found, or failure for an unknown
    /// repository; returns a copy of the final status.
    pub fn sync_repository_at(&mut self, repo_id: &str, now: u64) -> (r: Result<SyncStatus, String>)
        ensures
            r matches Ok(st) && st@ == sync_result(repo_id@,
                if old(self).repos().dom().contains(repo_id@) { Some(old(self).repos()[repo_id@]) } else { None }, now)
                && final(self).syncs() == old(self).syncs().insert(repo_id@, st@),
            final(self).repos() == old(self).repos(),
            final(self).dir() == old(self).dir(),
    {
        self.set_status(SyncStatus { repo_id: owned(repo_id), status: SyncState::Syncing, last_sync: None, plugins_count: 0, error: None });
        proof { lemma_store_keys(self.repositories); }
        let result = match self.repositories.get(repo_id) {
            Some(x) => perform_sync(x.repo_type),
            None => Err(owned("Repository not found")),
        };
        let st = match result {
            Ok(count) => SyncStatus { repo_id: owned(repo_id), status: SyncState::Success, last_sync: Some(now), plugins_count: count, error: None },
            Err(e) => SyncStatus { repo_id: owned(repo_id), status: SyncState::Failed, last_sync: None, plugins_count: 0, error: Some(e) },
        };
        let copy = st.dup();
        let ghost mid = self.syncs();
        self.set_status(st);
        assert(self.syncs() =~= old(self).syncs().insert(repo_id@, copy@));
        Ok(copy)
    }

    /// Synchronises repository `repo_id` now (see `sync_repository_at`).
    pub fn sync_repository(&mut self, repo_id: &str) -> (r: Result<SyncStatus, String>)
        ensures
            r matches Ok(st) && (st@.status == SyncState::Success <==> old(self).repos().dom().contains(repo_id@))
                && final(self).syncs() == old(self).syncs().insert(repo_id@, st@),
            final(self).repos() == old(self).repos(),
    {
        let now = now_millis_unsigned();
        self.sync_repository_at(repo_id, now)
    }

    /// A copy of the synchronisation status of repository `repo_id`, if any.
    pub fn get_sync_status(&self, repo_id: &str) -> (r: Option<SyncStatus>)
        ensures
            match r {
                Some(s) => self.syncs().dom().contains(repo_id@) && s@ == self.syncs()[repo_id@],
                None => !self.syncs().dom().contains(repo_id@),
            },
    {
        match self.sync_status.get(repo_id) {
            Some(s) => Some(s.dup()),
            None => None,
        }
    }

    /// Searches repository `repo_id` for `query` at `now`: a known repository
    /// offers one example plugin named after the query; an unknown one is
    /// an error.
    pub fn search_in_repository_at(&self, repo_id: &str, query: &str, now: u64) -> (r: Result<Vec<Plugin>, String>)
        ensures
            match r {
                Ok(v) => self.repos().dom().contains(repo_id@) && v@.len() == 1 && is_hyphenated_uuid(v@[0]@.id)
                    && v@[0]@ == example_plugin(v@[0]@.id, query@, now),
                Err(e) => !self.repos().dom().contains(repo_id@) && e@ == "Repository not found"@,
            },
    {
        if self.repositories.get(repo_id).is_none() {
            return Err(owned("Repository not found"));
        }
        let p = Plugin {
            id: new_uuid_string(),
            name: concat("Example Plugin for ", query),
            plugin_id: 1,
            version: owned("1.0.0"),
            file_id: 1,
            download_url: owned("https://example.com/plugin.jar"),
            file_name: owned("example.jar"),
            file_size: 1024000,
            upload_date: now,
            description: Some(owned("Example plugin")),
            authors: vec![owned("Author")],
            category: owned("General"),
            tags: vec![owned("example")],
            source_url: None,
            issue_tracker: None,
            website: None,
            supported_versions: vec![owned("1.20.4")],
            stats: PluginStats { downloads: 1000, likes: 100, reviews_count: 50, average_rating_bits: EXAMPLE_RATING_BITS },
            compatibility: PluginCompatibility {
                compatibility_score_bits: EXAMPLE_SCORE_BITS,
                server_version: owned("1.20.4"),
                api_version: owned("1.20"),
                known_issues: Vec::new(),
                verified: false,
            },
            is_premium: false,
            price_bits: None,
        };
        assert(strings_view(p.authors@) =~= seq!["Author"@]);
        assert(strings_view(p.tags@) =~= seq!["example"@]);
        assert(strings_view(p.supported_versions@) =~= seq!["1.20.4"@]);
        assert(strings_view(p.compatibility.known_issues@) =~= Seq::<Seq<char>>::empty());
        assert(p.compatibility@ =~= example_plugin(p@.id, query@, now).compatibility);
        assert(p@ =~= example_plugin(p@.id, query@, now));
        Ok(vec![p])
    }
}

// ---------------------------------------------------------------------------
// Laws
// ---------------------------------------------------------------------------

/// Repositories are listed lowest priority number first, each once.
pub proof fn law_repositories_by_priority(s: Seq<RepositoryView>)
    ensures
        forall|i: int, j: int| 0 <= i < j < sort_desc(s).len() ==> #[trigger] sort_desc(s)[i].priority <= #[trigger] sort_desc(s)[j].priority,
        sort_desc(s).to_multiset() == s.to_multiset(),
{
    lemma_sort_desc(s);
    assert forall|i: int, j: int| 0 <= i < j < sort_desc(s).len() implies #[trigger] sort_desc(s)[i].priority <= #[trigger] sort_desc(s)[j].priority by {
        assert(sort_desc(s)[i].rank() >= sort_desc(s)[j].rank());
    }
}

/// A synchronisation succeeds exactly for a known repository, and then
/// reports the count for its kind.
pub proof fn law_sync_known_only(id: Seq<char>, repo: Option<RepositoryView>, now: u64)
    ensures
        (sync_result(id, repo, now).status == SyncState::Success) <==> repo is Some,
        repo matches Some(r) ==> sync_result(id, repo, now).plugins_count == sync_count(r.repo_type),
{
}

/// Updating with nothing changes nothing.
pub proof fn law_empty_update(r: RepositoryView)
    ensures
        updated(r, (None, None, None, None)) == r,
{
}

} // verus!
