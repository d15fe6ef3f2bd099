//! Backups of plugin files and rolling back to them: where backups live, how
//! backup files are named, which backups belong to a plugin (newest first),
//! which are dropped by a clean-up, and what a restored plugin looks like.
//! Copying files, reading their metadata and checksums is the owner's work;
//! paths are plain text, joined with '/'. Times are milliseconds.
use vstd::prelude::*;
use crate::text::{owned, str_eq, chars_of, string_from_chars, replace_all, replace_exec, lowercase, to_lowercase,
    has_substring, has_substring_exec, strings_view, concat};
use crate::dup::{Duplicate, views};
use crate::order::{Ranked, sort_desc, sorted_desc, lemma_desc_pos, lemma_sort_desc};
use crate::plugins::types::{InstalledPlugin, InstalledView};
use crate::checksum::{checksum_of, lower_hex, sha256_digest};

verus! {

/// A saved copy of a plugin's file.
pub struct PluginBackup {
    pub id: String,
    pub plugin_id: String,
    pub version: String,
    pub backup_date: u64,
    pub file_path: String,
    pub file_size: i64,
    pub config_included: bool,
    pub checksum: String,
    pub reason: String,
}

/// The plain content of a backup.
pub struct BackupView {
    pub id: Seq<char>,
    pub plugin_id: Seq<char>,
    pub version: Seq<char>,
    pub backup_date: u64,
    pub file_path: Seq<char>,
    pub file_size: i64,
    pub config_included: bool,
    pub checksum: Seq<char>,
    pub reason: Seq<char>,
}

impl View for PluginBackup {
    type V = BackupView;

    open spec fn view(&self) -> BackupView {
        BackupView {
            id: self.id@,
            plugin_id: self.plugin_id@,
            version: self.version@,
            backup_date: self.backup_date,
            file_path: self.file_path@,
            file_size: self.file_size,
            config_included: self.config_included,
            checksum: self.checksum@,
            reason: self.reason@,
        }
    }
}

impl Duplicate for PluginBackup {
    fn dup(&self) -> (r: PluginBackup) {
        PluginBackup {
            id: self.id.clone(),
            plugin_id: self.plugin_id.clone(),
            version: self.version.clone(),
            backup_date: self.backup_date,
            file_path: self.file_path.clone(),
            file_size: self.file_size,
            config_included: self.config_included,
            checksum: self.checksum.clone(),
            reason: self.reason.clone(),
        }
    }
}

impl Ranked for BackupView {
    open spec fn rank(&self) -> int {
        self.backup_date as int
    }
}

/// `dir` joined with the relative name `name`: with a '/' between them
/// unless `dir` is empty or already ends with one.
pub open spec fn join_path(dir: Seq<char>, name: Seq<char>) -> Seq<char> {
    if dir.len() == 0 || dir.last() == '/' { dir + name } else { dir + seq!['/'] + name }
}

/// `dir` joined with the relative name `name` (see `join_path`).
pub fn join(dir: &str, name: &str) -> (r: String)
    ensures
        r@ == join_path(dir@, name@),
{
    let n = dir.unicode_len();
    if n == 0 || dir.get_char(n - 1) == '/' {
        concat(dir, name)
    } else {
        let with_sep = concat(dir, "/");
        proof { reveal_strlit("/"); }
        let r = concat(with_sep.as_str(), name);
        assert(r@ =~= dir@ + seq!['/'] + name@);
        r
    }
}

/// The name of a backup file of plugin `name` at `version`, for backup id
/// `id`: the name with spaces as '_', the version with dots as '_', and the
/// first eight characters of the id, joined by '-', ending in ".jar".
pub open spec fn backup_file_name(name: Seq<char>, version: Seq<char>, id: Seq<char>) -> Seq<char> {
    replace_all(name, seq![' '], seq!['_']) + seq!['-'] + replace_all(version, seq!['.'], seq!['_']) + seq!['-']
        + id.take(8) + ".jar"@
}

/// The name of the file saved from plugin `plugin_id` just before a
/// rollback, for backup id `id`.
pub open spec fn emergency_file_name(plugin_id: Seq<char>, id: Seq<char>) -> Seq<char> {
    "emergency-"@ + plugin_id + seq!['-'] + id.take(8) + ".jar"@
}

/// The backups of `s` that belong to plugin `plugin_id`, in order.
pub open spec fn backups_of(s: Seq<BackupView>, plugin_id: Seq<char>) -> Seq<BackupView>
    decreases s.len(),
{
    if s.len() == 0 {
        seq![]
    } else if s.last().plugin_id == plugin_id {
        backups_of(s.drop_last(), plugin_id).push(s.last())
    } else {
        backups_of(s.drop_last(), plugin_id)
    }
}

/// The installed plugin restored from backup `b` as plugin `plugin_id` into
/// file `file_name` at `now`: enabled, named after the backup's plugin, with
/// no dependencies and no supported versions recorded.
pub open spec fn restored(plugin_id: Seq<char>, b: BackupView, file_name: Seq<char>, now: u64) -> InstalledView {
    InstalledView {
        id: plugin_id,
        plugin_id: b.plugin_id,
        name: b.plugin_id,
        version: b.version,
        file_name,
        install_date: b.backup_date,
        last_updated: now,
        enabled: true,
        dependencies: seq![],
        supported_versions: seq![],
    }
}

/// Whether a file named `file_name` with extension `ext` belongs to plugin
/// `plugin_name`: a ".jar", ".yml" or ".yaml" file whose lower-case name
/// contains the plugin's lower-case name.
pub open spec fn is_plugin_file(file_name: Seq<char>, ext: Option<Seq<char>>, plugin_name: Seq<char>) -> bool {
    &&& ext matches Some(e) && (e == "jar"@ || e == "yml"@ || e == "yaml"@)
    &&& has_substring(lowercase(file_name), lowercase(plugin_name))
}

/// Where plugin files and their backups live.
pub struct RollbackManager {
    backups_dir: String,
    plugins_dir: String,
}

impl RollbackManager {
    /// The directory of the backups.
    pub closed spec fn backups(&self) -> Seq<char> {
        self.backups_dir@
    }

    /// The directory of the plugins.
    pub closed spec fn plugins(&self) -> Seq<char> {
        self.plugins_dir@
    }

    /// A manager for plugins in `plugins_dir`, keeping backups in its
    /// "backups" subdirectory.
    pub fn new(plugins_dir: String) -> (m: RollbackManager)
        ensures
            m.plugins() == plugins_dir@,
            m.backups() == join_path(plugins_dir@, "backups"@),
    {
        let backups_dir = join(plugins_dir.as_str(), "backups");
        RollbackManager { backups_dir, plugins_dir }
    }

    /// The directory of the backups.
    pub fn backups_dir(&self) -> (d: &str)
        ensures
            d@ == self.backups(),
    {
        self.backups_dir.as_str()
    }

    /// The directory of the plugins.
    pub fn plugins_dir(&self) -> (d: &str)
        ensures
            d@ == self.plugins(),
    {
        self.plugins_dir.as_str()
    }

    /// The path of the installed file of `plugin`.
    pub fn plugin_path(&self, plugin: &InstalledPlugin) -> (p: String)
        ensures
            p@ == join_path(self.plugins(), plugin@.file_name),
    {
        join(self.plugins_dir.as_str(), plugin.file_name.as_str())
    }

    /// The path of the backup file of `plugin` for backup id `backup_id`
    /// (at least eight characters long).
    pub fn backup_path(&self, plugin: &InstalledPlugin, backup_id: &str) -> (p: String)
        requires
            backup_id@.len() >= 8,
        ensures
            p@ == join_path(self.backups(), backup_file_name(plugin@.name, plugin@.version, backup_id@)),
    {
        let space = vec![' '];
        let dot = vec!['.'];
        let under = vec!['_'];
        assert(space@ =~= seq![' ']);
        assert(dot@ =~= seq!['.']);
        assert(under@ =~= seq!['_']);
        let name = replace_exec(&chars_of(plugin.name.as_str()), &space, &under);
        let version = replace_exec(&chars_of(plugin.version.as_str()), &dot, &under);
        let id = chars_of(backup_id);
        let mut v: Vec<char> = Vec::new();
        let mut k: usize = 0;
        let nn = name.len();
        while k < nn
            invariant
                nn == name@.len(),
                k <= nn,
                v@ == name@.take(k as int),
            decreases nn - k,
        {
            v.push(name[k]);
            assert(name@.take(k + 1) =~= name@.take(k as int).push(name@[k as int]));
            k = k + 1;
        }
        v.push('-');
        let ghost after_name = v@;
        let nv = version.len();
        let mut k: usize = 0;
        while k < nv
            invariant
                nv == version@.len(),
                k <= nv,
                v@ == after_name + version@.take(k as int),
            decreases nv - k,
        {
            v.push(version[k]);
            assert(version@.take(k + 1) =~= version@.take(k as int).push(version@[k as int]));
            k = k + 1;
        }
        v.push('-');
        let ghost after_version = v@;
        let mut k: usize = 0;
        while k < 8
            invariant
                id@ == backup_id@,
                id@.len() >= 8,
                k <= 8,
                v@ == after_version + id@.take(k as int),
            decreases 8 - k,
        {
            v.push(id[k]);
            assert(id@.take(k + 1) =~= id@.take(k as int).push(id@[k as int]));
            k = k + 1;
        }
        v.push('.');
        v.push('j');
        v.push('a');
        v.push('r');
        proof {
            reveal_strlit(".jar");
            assert(name@.take(nn as int) =~= name@);
            assert(version@.take(nv as int) =~= version@);
            assert(v@ =~= backup_file_name(plugin@.name, plugin@.version, backup_id@));
        }
        let file = string_from_chars(&v);
        join(self.backups_dir.as_str(), file.as_str())
    }

    /// The path of the file saved from plugin `plugin_id` before a rollback,
    /// for backup id `backup_id` (at least eight characters long).
    pub fn emergency_path(&self, plugin_id: &str, backup_id: &str) -> (p: String)
        requires
            backup_id@.len() >= 8,
        ensures
            p@ == join_path(self.backups(), emergency_file_name(plugin_id@, backup_id@)),
    {
        let id = chars_of(backup_id);
        let mut v = chars_of("emergency-");
        let pid = chars_of(plugin_id);
        let ghost start = v@;
        let np = pid.len();
        let mut k: usize = 0;
        while k < np
            invariant
                np == pid@.len(),
                k <= np,
                v@ == start + pid@.take(k as int),
            decreases np - k,
        {
            v.push(pid[k]);
            assert(pid@.take(k + 1) =~= pid@.take(k as int).push(pid@[k as int]));
            k = k + 1;
        }
        v.push('-');
        let ghost mid = v@;
        let mut k: usize = 0;
        while k < 8
            invariant
                id@ == backup_id@,
                id@.len() >= 8,
                k <= 8,
                v@ == mid + id@.take(k as int),
            decreases 8 - k,
        {
            v.push(id[k]);
            assert(id@.take(k + 1) =~= id@.take(k as int).push(id@[k as int]));
            k = k + 1;
        }
        v.push('.');
        v.push('j');
        v.push('a');
        v.push('r');
        proof {
            reveal_strlit(".jar");
            assert(pid@.take(np as int) =~= pid@);
            assert(v@ =~= emergency_file_name(plugin_id@, backup_id@));
        }
        let file = string_from_chars(&v);
        join(self.backups_dir.as_str(), file.as_str())
    }

    /// The path of the metadata file of backup `backup_id`.
    pub fn metadata_path(&self, backup_id: &str) -> (p: String)
        ensures
            p@ == join_path(self.backups(), backup_id@ + ".json"@),
    {
        let name = concat(backup_id, ".json");
        join(self.backups_dir.as_str(), name.as_str())
    }

    /// The file name a plugin is restored into: its name with ".jar".
    pub fn get_plugin_jar_name(&self, plugin_name: &str) -> (r: Result<String, String>)
        ensures
            r matches Ok(s) && s@ == plugin_name@ + ".jar"@,
    {
        Ok(concat(plugin_name, ".jar"))
    }

    /// The record of a new backup `backup_id` of `plugin` made at `now` into
    /// `file_path`, of `file_size` bytes with checksum `checksum`, for `reason`.
    pub fn backup_record(&self, backup_id: String, plugin: &InstalledPlugin, now: u64, file_path: String, file_size: i64,
        checksum: String, reason: &str) -> (b: PluginBackup)
        ensures
            b@ == (BackupView {
                id: backup_id@,
                plugin_id: plugin@.id,
                version: plugin@.version,
                backup_date: now,
                file_path: file_path@,
                file_size,
                config_included: false,
                checksum: checksum@,
                reason: reason@,
            }),
    {
        PluginBackup {
            id: backup_id,
            plugin_id: plugin.id.clone(),
            version: plugin.version.clone(),
            backup_date: now,
            file_path,
            file_size,
            config_included: false,
            checksum,
            reason: owned(reason),
        }
    }

    /// Checks that backup `backup` belongs to plugin `plugin_id`.
    pub fn check_backup_owner(&self, backup: &PluginBackup, plugin_id: &str) -> (r: Result<(), String>)
        ensures
            r is Ok <==> backup@.plugin_id == plugin_id@,
            r matches Err(e) ==> e@ == "Backup does not match plugin ID"@,
    {
        if str_eq(backup.plugin_id.as_str(), plugin_id) {
            Ok(())
        } else {
            Err(owned("Backup does not match plugin ID"))
        }
    }

    /// The plugin restored from `backup` as plugin `plugin_id` at `now`,
    /// into the file named after the backup's plugin.
    pub fn restored_plugin(&self, plugin_id: &str, backup: &PluginBackup, now: u64) -> (p: InstalledPlugin)
        ensures
            p@ == restored(plugin_id@, backup@, backup@.plugin_id + ".jar"@, now),
    {
        let file_name = concat(backup.plugin_id.as_str(), ".jar");
        let p = InstalledPlugin {
            id: owned(plugin_id),
            plugin_id: backup.plugin_id.clone(),
            name: backup.plugin_id.clone(),
            version: backup.version.clone(),
            file_name,
            install_date: backup.backup_date,
            last_updated: now,
            enabled: true,
            dependencies: Vec::new(),
            supported_versions: Vec::new(),
        };
        assert(views(p.dependencies@) =~= Seq::empty());
        assert(strings_view(p.supported_versions@) =~= Seq::empty());
        p
    }

    /// Whether a file named `file_name` with extension `ext` belongs to
    /// plugin `plugin_name` (see `is_plugin_file`).
    pub fn is_plugin_file(&self, file_name: &str, ext: Option<&str>, plugin_name: &str) -> (b: bool)
        ensures
            b == is_plugin_file(file_name@, match ext { Some(e) => Some(e@), None => None }, plugin_name@),
    {
        let ok_ext = match ext {
            Some(e) => str_eq(e, "jar") || str_eq(e, "yml") || str_eq(e, "yaml"),
            None => false,
        };
        if !ok_ext {
            return false;
        }
        let lf = to_lowercase(file_name);
        let lp = to_lowercase(plugin_name);
        has_substring_exec(lf.as_str(), lp.as_str())
    }

    /// Copies of the backups of `all` that belong to plugin `plugin_id`, newest first.
    pub fn backups_for(&self, all: &Vec<PluginBackup>, plugin_id: &str) -> (r: Vec<PluginBackup>)
        ensures
            views(r@) == sort_desc(backups_of(views(all@), plugin_id@)),
    {
        let ghost s = views(all@);
        let n = all.len();
        let mut r: Vec<PluginBackup> = Vec::new();
        let mut i: usize = 0;
        while i < n
            invariant
                n == all@.len(),
                s == views(all@),
                i <= n,
                views(r@) == sort_desc(backups_of(s.take(i as int), plugin_id@)),
            decreases n - i,
        {
            proof {
                assert(s.take(i + 1).drop_last() =~= s.take(i as int));
                assert(s.take(i + 1).last() == all@[i as int]@);
            }
            if str_eq(all[i].plugin_id.as_str(), plugin_id) {
                let x = all[i].dup();
                let m = r.len();
                let mut p: usize = 0;
                while p < m && r[p].backup_date >= x.backup_date
                    invariant
                        m == r@.len(),
                        p <= m,
                        forall|k: int| 0 <= k < p ==> #[trigger] views(r@)[k].rank() >= x@.rank(),
                    decreases m - p,
                {
                    p = p + 1;
                }
                let ghost before = views(r@);
                let ghost xv = x@;
                proof {
                    lemma_desc_pos(before, xv, p as int);
                    let t = backups_of(s.take(i + 1), plugin_id@);
                    assert(t.drop_last() =~= backups_of(s.take(i as int), plugin_id@));
                    assert(t.last() == xv);
                }
                r.insert(p, x);
                assert(views(r@) =~= before.insert(p as int, xv));
            }
            i = i + 1;
        }
        proof { assert(s.take(n as int) =~= s); }
        r
    }

    /// The ids of the backups of `all` a clean-up keeping `keep_count`
    /// drops: all but the `keep_count` newest, newest first.
    pub fn backups_to_delete(&self, all: &Vec<PluginBackup>, keep_count: usize) -> (r: Vec<String>)
        ensures
            strings_view(r@) == (if keep_count < all@.len() { sort_desc(views(all@)).skip(keep_count as int) } else { seq![] })
                .map_values(|b: BackupView| b.id),
    {
        let ghost s = views(all@);
        let n = all.len();
        let mut sorted: Vec<PluginBackup> = Vec::new();
        let mut i: usize = 0;
        while i < n
            invariant
                n == all@.len(),
                s == views(all@),
                i <= n,
                views(sorted@) == sort_desc(s.take(i as int)),
            decreases n - i,
        {
            let x = all[i].dup();
            let m = sorted.len();
            let mut p: usize = 0;
            while p < m && sorted[p].backup_date >= x.backup_date
                invariant
                    m == sorted@.len(),
                    p <= m,
                    forall|k: int| 0 <= k < p ==> #[trigger] views(sorted@)[k].rank() >= x@.rank(),
                decreases m - p,
            {
                p = p + 1;
            }
            let ghost before = views(sorted@);
            let ghost xv = x@;
            proof {
                lemma_desc_pos(before, xv, p as int);
                assert(s.take(i + 1).drop_last() =~= s.take(i as int));
                assert(s.take(i + 1).last() == xv);
            }
            sorted.insert(p, x);
            assert(views(sorted@) =~= before.insert(p as int, xv));
            i = i + 1;
        }
        proof {
            assert(s.take(n as int) =~= s);
            lemma_sort_desc(s);
        }
        let ghost ss = views(sorted@);
        let mut r: Vec<String> = Vec::new();
        let mut j: usize = keep_count;
        if j > n {
            j = n;
        }
        let start = j;
        while j < n
            invariant
                n == sorted@.len(),
                ss == views(sorted@),
                start <= j <= n,
                strings_view(r@) == ss.subrange(start as int, j as int).map_values(|b: BackupView| b.id),
            decreases n - j,
        {
            let ghost before = strings_view(r@);
            r.push(sorted[j].id.clone());
            assert(ss.subrange(start as int, j + 1) =~= ss.subrange(start as int, j as int).push(ss[j as int]));
            assert(strings_view(r@) =~= before.push(ss[j as int].id));
            assert(ss.subrange(start as int, j + 1).map_values(|b: BackupView| b.id)
                =~= ss.subrange(start as int, j as int).map_values(|b: BackupView| b.id).push(ss[j as int].id));
            j = j + 1;
        }
        proof {
            if keep_count < n {
                assert(ss.subrange(start as int, n as int) =~= ss.skip(keep_count as int));
            } else {
                assert(ss.subrange(start as int, n as int) =~= Seq::<BackupView>::empty());
            }
        }
        r
    }

    /// The checksum of a backup file's contents: its SHA-256 digest in
    /// lower-case hexadecimal.
    pub fn calculate_checksum(&self, contents: &[u8]) -> (r: String)
        ensures
            r@ == lower_hex(sha256_digest(contents@)),
            r@.len() == 64,
    {
        checksum_of(contents)
    }

    /// Whether a backup's recorded checksum matches the one computed now.
    pub fn checksum_matches(&self, backup: &PluginBackup, calculated: &str) -> (b: bool)
        ensures
            b == (calculated@ == backup@.checksum),
    {
        str_eq(calculated, backup.checksum.as_str())
    }
}

// ---------------------------------------------------------------------------
// Laws
// ---------------------------------------------------------------------------

/// The backups listed for a plugin are newest first, are that plugin's, and
/// are each backup of that plugin once.
pub proof fn law_backups_for_plugin(s: Seq<BackupView>, plugin_id: Seq<char>)
    ensures
        sorted_desc(sort_desc(backups_of(s, plugin_id))),
        sort_desc(backups_of(s, plugin_id)).to_multiset() == backups_of(s, plugin_id).to_multiset(),
        forall|i: int| 0 <= i < backups_of(s, plugin_id).len() ==> #[trigger] backups_of(s, plugin_id)[i].plugin_id == plugin_id,
    decreases s.len(),
{
    lemma_sort_desc(backups_of(s, plugin_id));
    if s.len() > 0 {
        law_backups_for_plugin(s.drop_last(), plugin_id);
    }
}

/// A clean-up keeping `keep` backups drops exactly the backups beyond the
/// `keep` newest: as many as there are beyond that number.
pub proof fn law_cleanup_keeps_newest(s: Seq<BackupView>, keep: nat)
    ensures
        (if keep < s.len() { sort_desc(s).skip(keep as int) } else { seq![] }).len()
            == (if keep < s.len() { s.len() - keep } else { 0 }),
{
    lemma_sort_desc(s);
}

} // verus!
