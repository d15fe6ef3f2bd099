//! Conflict analysis between plugins: version clashes with an installed copy,
//! dependencies that do not match, plugins without a common API version,
//! known command clashes and known look-alike plugins; the dependencies a
//! plugin commonly needs; and the conflict matrix of the installed plugins.
//! Plugin names are compared in lower case (std's `str::to_lowercase`).
use vstd::prelude::*;
use crate::keyed::{Keyed, Store, lemma_store_keys};
use crate::text::{owned, str_eq, chars_of, string_from_chars, lowercase, to_lowercase, strings_view};
use crate::dup::{Duplicate, views, dup_vec};
use crate::plugins::types::{
    Plugin, PluginDependency, DependencyView, InstalledPlugin, InstalledView, DependencyConflict,
    ConflictView, ConflictType, ConflictSeverity,
};

verus! {

// ---------------------------------------------------------------------------
// Text helpers
// ---------------------------------------------------------------------------

/// The position of the first '.' of `v`, or its length when it has none.
pub open spec fn is_first_dot(v: Seq<char>, i: int) -> bool {
    &&& 0 <= i <= v.len()
    &&& forall|j: int| 0 <= j < i ==> v[j] != '.'
    &&& (i == v.len() || v[i] == '.')
}

/// The major part of a version: the text before its first '.' (all of it
/// when there is none).
pub open spec fn major_of(v: Seq<char>) -> Seq<char> {
    v.take(choose|i: int| is_first_dot(v, i))
}

proof fn lemma_first_dot_unique(v: Seq<char>, i: int, k: int)
    requires
        is_first_dot(v, i),
        is_first_dot(v, k),
    ensures
        i == k,
{
    if i < k {
        assert(v[i] != '.');
    } else if k < i {
        assert(v[k] != '.');
    }
}

/// The major part of a version.
pub fn major_version(v: &str) -> (r: String)
    ensures
        r@ == major_of(v@),
{
    let cs = chars_of(v);
    let n = cs.len();
    let mut i: usize = 0;
    while i < n
        invariant
            cs@ == v@,
            n == cs@.len(),
            i <= n,
            forall|j: int| 0 <= j < i ==> cs@[j] != '.',
        ensures
            i <= n,
            forall|j: int| 0 <= j < i ==> cs@[j] != '.',
            i == n || cs@[i as int] == '.',
        decreases n - i,
    {
        if cs[i] == '.' {
            break;
        }
        i = i + 1;
    }
    let mut out: Vec<char> = Vec::new();
    let mut k: usize = 0;
    while k < i
        invariant
            cs@ == v@,
            i <= n,
            n == cs@.len(),
            k <= i,
            out@ == cs@.take(k as int),
        decreases i - k,
    {
        out.push(cs[k]);
        k = k + 1;
        assert(out@ =~= cs@.take(k as int));
    }
    proof {
        assert(is_first_dot(v@, i as int));
        let c = choose|c: int| is_first_dot(v@, c);
        lemma_first_dot_unique(v@, i as int, c);
    }
    string_from_chars(&out)
}

/// The distinct entries of `s`, each where it first occurs.
pub open spec fn distinct(s: Seq<Seq<char>>) -> Seq<Seq<char>>
    decreases s.len(),
{
    if s.len() == 0 {
        seq![]
    } else {
        let r = distinct(s.drop_last());
        if r.contains(s.last()) { r } else { r.push(s.last()) }
    }
}

/// The entries of `s` in double quotes, separated by ", ".
pub open spec fn quoted_list(s: Seq<Seq<char>>) -> Seq<char>
    decreases s.len(),
{
    if s.len() == 0 {
        seq![]
    } else if s.len() == 1 {
        "\""@ + s[0] + "\""@
    } else {
        quoted_list(s.drop_last()) + ", \""@ + s.last() + "\""@
    }
}

/// A set of versions as written in conflict descriptions: the distinct
/// versions in braces, quoted, in order of first occurrence.
pub open spec fn set_text(s: Seq<Seq<char>>) -> Seq<char> {
    "{"@ + quoted_list(distinct(s)) + "}"@
}

/// Whether `v` holds `x`.
fn holds(v: &Vec<String>, x: &str) -> (b: bool)
    ensures
        b == strings_view(v@).contains(x@),
{
    crate::text::contains_str(v, x)
}

/// The distinct versions of `v`, in order of first occurrence, as written in
/// conflict descriptions.
fn write_set(v: &Vec<String>) -> (r: String)
    ensures
        r@ == set_text(strings_view(v@)),
{
    let ghost s = strings_view(v@);
    let n = v.len();
    let mut seen: Vec<String> = Vec::new();
    let mut body = String::new();
    let mut i: usize = 0;
    while i < n
        invariant
            n == v@.len(),
            s == strings_view(v@),
            i <= n,
            strings_view(seen@) == distinct(s.take(i as int)),
            body@ == quoted_list(strings_view(seen@)),
        decreases n - i,
    {
        proof { assert(s.take(i + 1).drop_last() =~= s.take(i as int)); }
        if !holds(&seen, v[i].as_str()) {
            let ghost before = strings_view(seen@);
            if seen.len() > 0 {
                body.append(", \"");
            } else {
                body.append("\"");
            }
            body.append(v[i].as_str());
            body.append("\"");
            seen.push(v[i].clone());
            proof {
                assert(strings_view(seen@) =~= before.push(s[i as int]));
                assert(strings_view(seen@).drop_last() =~= before);
                if before.len() == 0 {
                    assert(body@ =~= "\""@ + s[i as int] + "\""@);
                } else {
                    assert(body@ =~= quoted_list(before) + ", \""@ + s[i as int] + "\""@);
                }
            }
        }
        i = i + 1;
    }
    proof { assert(s.take(n as int) =~= s); }
    let mut r = owned("{");
    r.append(body.as_str());
    r.append("}");
    r
}

// ---------------------------------------------------------------------------
// What conflicts there are
// ---------------------------------------------------------------------------

/// The dependencies recorded for plugin name `name` (none when unknown).
pub open spec fn deps_of(known: Map<Seq<char>, Seq<DependencyView>>, name: Seq<char>) -> Seq<DependencyView> {
    if known.dom().contains(name) { known[name] } else { seq![] }
}

/// A clash between installed plugin `i` and the candidate `name`/`version`
/// that share a name (in lower case) but not a major version.
pub open spec fn version_conflict(i: InstalledView, name: Seq<char>, version: Seq<char>) -> Seq<ConflictView> {
    if lowercase(i.name) == lowercase(name) && major_of(i.version) != major_of(version) {
        seq![ConflictView {
            plugin_a: i.name,
            plugin_b: name,
            conflict_type: ConflictType::Version,
            description: "Version mismatch: installed "@ + i.version + " but trying to install "@ + version,
            severity: ConflictSeverity::Critical,
            resolution: "Either keep version "@ + i.version + " or uninstall current version first"@,
        }]
    } else {
        seq![]
    }
}

/// The clash of installed plugin `i` with the candidate through dependency `d`.
pub open spec fn dep_conflict(i: InstalledView, d: DependencyView, name: Seq<char>, version: Seq<char>) -> ConflictView {
    ConflictView {
        plugin_a: i.name,
        plugin_b: name,
        conflict_type: ConflictType::HardDependency,
        description: "Hard dependency conflict: "@ + i.name + " requires "@ + name + " version "@ + d.version + " but found "@ + version,
        severity: if d.required { ConflictSeverity::Critical } else { ConflictSeverity::Medium },
        resolution: "Install a compatible version of "@ + name + " (required: "@ + d.version + ")"@,
    }
}

/// The clashes through each dependency of `i` (in `deps`) that names the
/// candidate (in lower case) without a matching version, in order.
pub open spec fn dep_conflicts(i: InstalledView, deps: Seq<DependencyView>, name: Seq<char>, version: Seq<char>) -> Seq<ConflictView>
    decreases deps.len(),
{
    if deps.len() == 0 {
        seq![]
    } else {
        let rest = dep_conflicts(i, deps.drop_last(), name, version);
        let d = deps.last();
        if lowercase(d.name) == lowercase(name) && !d.version_match {
            rest.push(dep_conflict(i, d, name, version))
        } else {
            rest
        }
    }
}

/// Whether two lists of versions have one in common.
pub open spec fn share_version(a: Seq<Seq<char>>, b: Seq<Seq<char>>) -> bool {
    exists|x: Seq<char>| a.contains(x) && b.contains(x)
}

/// A clash when `i` and the candidate support no API version in common.
pub open spec fn api_conflict(i: InstalledView, name: Seq<char>, supported: Seq<Seq<char>>) -> Seq<ConflictView> {
    if !share_version(i.supported_versions, supported) {
        seq![ConflictView {
            plugin_a: i.name,
            plugin_b: name,
            conflict_type: ConflictType::ApiIncompatibility,
            description: "No common API versions: "@ + i.name + " supports "@ + set_text(i.supported_versions)
                + " but "@ + name + " supports "@ + set_text(supported),
            severity: ConflictSeverity::High,
            resolution: "One of these plugins may not work correctly. Consider alternatives."@,
        }]
    } else {
        seq![]
    }
}

/// The plugins (lower-case names) known to clash on commands with plugin `n`.
pub open spec fn command_table(n: Seq<char>) -> Seq<Seq<char>> {
    if n == "worldguard"@ {
        seq!["regionizer"@, "protectionlib"@]
    } else if n == "coreprotect"@ {
        seq!["logblock"@, "prism"@]
    } else if n == "vault"@ {
        seq!["permissionsex"@]
    } else {
        seq![]
    }
}

/// A clash when `i` is known to clash on commands with the candidate.
pub open spec fn command_conflict(i: InstalledView, name: Seq<char>) -> Seq<ConflictView> {
    if command_table(lowercase(i.name)).contains(lowercase(name)) {
        seq![ConflictView {
            plugin_a: i.name,
            plugin_b: name,
            conflict_type: ConflictType::CommandConflict,
            description: i.name + " and "@ + name + " are known to have command conflicts"@,
            severity: ConflictSeverity::Medium,
            resolution: "Use plugin prefixes for commands or disable one plugin"@,
        }]
    } else {
        seq![]
    }
}

/// Every clash of installed plugin `i` (whose recorded dependencies are
/// `deps`) with the candidate.
pub open spec fn installed_conflicts(
    i: InstalledView, deps: Seq<DependencyView>, name: Seq<char>, version: Seq<char>, supported: Seq<Seq<char>>,
) -> Seq<ConflictView> {
    version_conflict(i, name, version) + dep_conflicts(i, deps, name, version) + api_conflict(i, name, supported)
        + command_conflict(i, name)
}

/// The clashes of each installed plugin with the candidate, plugin by plugin.
pub open spec fn conflicts_with_installed(
    inst: Seq<InstalledView>, known: Map<Seq<char>, Seq<DependencyView>>, name: Seq<char>, version: Seq<char>, supported: Seq<Seq<char>>,
) -> Seq<ConflictView>
    decreases inst.len(),
{
    if inst.len() == 0 {
        seq![]
    } else {
        conflicts_with_installed(inst.drop_last(), known, name, version, supported)
            + installed_conflicts(inst.last(), deps_of(known, inst.last().name), name, version, supported)
    }
}

/// The groups of plugins (lower-case names) that do the same job.
pub open spec fn lookalike_group(k: int) -> Seq<Seq<char>> {
    if k == 0 {
        seq!["worldedit"@, "fawe"@, "fastasyncworldedit"@]
    } else if k == 1 {
        seq!["essentialsx"@, "essentials"@]
    } else {
        seq!["luckperms"@, "permissionsmanager"@]
    }
}

/// The clash of installed plugin `i` with a candidate doing the same job.
pub open spec fn lookalike_conflict(i: InstalledView, name: Seq<char>) -> ConflictView {
    ConflictView {
        plugin_a: i.name,
        plugin_b: name,
        conflict_type: ConflictType::ResourceConflict,
        description: "These plugins provide similar functionality: "@ + i.name + " vs "@ + name,
        severity: ConflictSeverity::Medium,
        resolution: "Choose one plugin that best fits your needs"@,
    }
}

/// The installed plugins of group `g` other than the candidate itself, as clashes.
pub open spec fn group_matches(g: Seq<Seq<char>>, inst: Seq<InstalledView>, name: Seq<char>) -> Seq<ConflictView>
    decreases inst.len(),
{
    if inst.len() == 0 {
        seq![]
    } else {
        let rest = group_matches(g, inst.drop_last(), name);
        let l = lowercase(inst.last().name);
        if g.contains(l) && l != lowercase(name) { rest.push(lookalike_conflict(inst.last(), name)) } else { rest }
    }
}

/// The look-alike clashes of the candidate through group `g`.
pub open spec fn group_conflicts(g: Seq<Seq<char>>, inst: Seq<InstalledView>, name: Seq<char>) -> Seq<ConflictView> {
    if g.contains(lowercase(name)) { group_matches(g, inst, name) } else { seq![] }
}

/// Every clash of the candidate with the installed plugins `inst`: the clashes
/// plugin by plugin, then the look-alike clashes group by group.
pub open spec fn all_candidate_conflicts(
    inst: Seq<InstalledView>, known: Map<Seq<char>, Seq<DependencyView>>, name: Seq<char>, version: Seq<char>, supported: Seq<Seq<char>>,
) -> Seq<ConflictView> {
    conflicts_with_installed(inst, known, name, version, supported)
        + group_conflicts(lookalike_group(0), inst, name)
        + group_conflicts(lookalike_group(1), inst, name)
        + group_conflicts(lookalike_group(2), inst, name)
}

/// The plugins (lower-case names) plugin `n` (lower case) commonly needs.
pub open spec fn common_deps(n: Seq<char>) -> Seq<Seq<char>> {
    if n == "worldedit"@ {
        seq!["craftbook"@]
    } else if n == "worldguard"@ {
        seq!["worldedit"@]
    } else if n == "vault"@ {
        seq!["permissionsex"@, "luckperms"@, "groupmanager"@]
    } else if n == "essentialsx"@ {
        seq!["vault"@]
    } else if n == "luckperms"@ {
        seq!["vault"@]
    } else if n == " Citizens"@ {
        seq!["skript"@]
    } else {
        seq![]
    }
}

/// Whether some plugin of `inst` has name `n` (compared in lower case).
pub open spec fn installed_named(inst: Seq<InstalledView>, n: Seq<char>) -> bool {
    exists|i: int| 0 <= i < inst.len() && #[trigger] lowercase(inst[i].name) == lowercase(n)
}

/// The dependencies plugin `name` commonly needs: each required, of any
/// version, marked installed when a plugin of that name is installed.
pub open spec fn resolved_deps(inst: Seq<InstalledView>, name: Seq<char>) -> Seq<DependencyView> {
    let ds = common_deps(lowercase(name));
    Seq::new(ds.len(), |k: int| DependencyView {
        name: ds[k],
        version: "*"@,
        required: true,
        installed: installed_named(inst, ds[k]),
        version_match: true,
    })
}

/// The clash between installed plugins `a` and `b`, when a dependency
/// recorded for `a` names `b` (in lower case) without a matching version.
pub open spec fn pair_conflict(a: InstalledView, b: InstalledView, known: Map<Seq<char>, Seq<DependencyView>>) -> Seq<ConflictView> {
    let ds = deps_of(known, a.name);
    if exists|k: int| 0 <= k < ds.len() && #[trigger] lowercase(ds[k].name) == lowercase(b.name) && !ds[k].version_match {
        seq![ConflictView {
            plugin_a: a.name,
            plugin_b: b.name,
            conflict_type: ConflictType::HardDependency,
            description: "Version mismatch between "@ + a.name + " and "@ + b.name,
            severity: ConflictSeverity::High,
            resolution: "Update one of the plugins to a compatible version"@,
        }]
    } else {
        seq![]
    }
}

/// The clashes of plugin `i` with each later plugin before position `end`.
pub open spec fn row_conflicts(inst: Seq<InstalledView>, known: Map<Seq<char>, Seq<DependencyView>>, i: nat, end: nat) -> Seq<ConflictView>
    decreases end,
{
    if end <= i + 1 {
        seq![]
    } else {
        row_conflicts(inst, known, i, (end - 1) as nat) + pair_conflict(inst[i as int], inst[end - 1], known)
    }
}

/// The clashes of each pair of plugins whose first member is before position `m`.
pub open spec fn pairs_before(inst: Seq<InstalledView>, known: Map<Seq<char>, Seq<DependencyView>>, m: nat) -> Seq<ConflictView>
    decreases m,
{
    if m == 0 {
        seq![]
    } else {
        pairs_before(inst, known, (m - 1) as nat) + row_conflicts(inst, known, (m - 1) as nat, inst.len())
    }
}

/// The clashes between the installed plugins, pair by pair in list order.
pub open spec fn all_pair_conflicts(inst: Seq<InstalledView>, known: Map<Seq<char>, Seq<DependencyView>>) -> Seq<ConflictView> {
    pairs_before(inst, known, inst.len())
}

/// Whether `cs` records a clash between plugins named `a` and `b`, either way round.
pub open spec fn clash_between(cs: Seq<ConflictView>, a: Seq<char>, b: Seq<char>) -> bool {
    exists|k: int| 0 <= k < cs.len()
        && ((#[trigger] cs[k].plugin_a == a && cs[k].plugin_b == b) || (cs[k].plugin_a == b && cs[k].plugin_b == a))
}

/// A cell of the compatibility matrix.
pub open spec fn matrix_cell(a: Seq<char>, b: Seq<char>, cs: Seq<ConflictView>) -> Seq<char> {
    if a == b {
        "SELF"@
    } else if clash_between(cs, a, b) {
        "CONFLICT"@
    } else {
        "OK"@
    }
}

/// The compatibility matrix of the installed plugins, in list order.
pub open spec fn matrix_of(inst: Seq<InstalledView>, known: Map<Seq<char>, Seq<DependencyView>>) -> Seq<Seq<Seq<char>>> {
    Seq::new(inst.len(), |x: int| Seq::new(inst.len(), |y: int| matrix_cell(inst[x].name, inst[y].name, all_pair_conflicts(inst, known))))
}

// ---------------------------------------------------------------------------
// Building the conflicts
// ---------------------------------------------------------------------------

/// Whether two lists of versions have one in common.
fn share(a: &Vec<String>, b: &Vec<String>) -> (r: bool)
    ensures
        r == share_version(strings_view(a@), strings_view(b@)),
{
    let n = a.len();
    let mut i: usize = 0;
    while i < n
        invariant
            n == a@.len(),
            i <= n,
            forall|j: int| 0 <= j < i ==> !strings_view(b@).contains(#[trigger] strings_view(a@)[j]),
        decreases n - i,
    {
        if holds(b, a[i].as_str()) {
            assert(strings_view(a@).contains(strings_view(a@)[i as int]));
            return true;
        }
        i = i + 1;
    }
    proof {
        if share_version(strings_view(a@), strings_view(b@)) {
            let x = choose|x: Seq<char>| strings_view(a@).contains(x) && strings_view(b@).contains(x);
            let j = choose|j: int| 0 <= j < strings_view(a@).len() && strings_view(a@)[j] == x;
            assert(!strings_view(b@).contains(strings_view(a@)[j]));
        }
    }
    false
}

/// Whether `n` (a lower-case name) is known to clash on commands with `m`.
fn command_clash(n: &str, m: &str) -> (r: bool)
    ensures
        r == command_table(n@).contains(m@),
{
    let t = if str_eq(n, "worldguard") {
        vec![owned("regionizer"), owned("protectionlib")]
    } else if str_eq(n, "coreprotect") {
        vec![owned("logblock"), owned("prism")]
    } else if str_eq(n, "vault") {
        vec![owned("permissionsex")]
    } else {
        Vec::new()
    };
    assert(strings_view(t@) =~= command_table(n@));
    holds(&t, m)
}

/// Whether `x` belongs to look-alike group `k`.
fn in_group(k: usize, x: &str) -> (r: bool)
    requires
        k < 3,
    ensures
        r == lookalike_group(k as int).contains(x@),
{
    let g = if k == 0 {
        vec![owned("worldedit"), owned("fawe"), owned("fastasyncworldedit")]
    } else if k == 1 {
        vec![owned("essentialsx"), owned("essentials")]
    } else {
        vec![owned("luckperms"), owned("permissionsmanager")]
    };
    assert(strings_view(g@) =~= lookalike_group(k as int));
    holds(&g, x)
}

/// Appends the conflicts of `more` to `dst`.
fn append_conflicts(dst: &mut Vec<DependencyConflict>, more: Vec<DependencyConflict>)
    ensures
        views(final(dst)@) == views(old(dst)@) + views(more@),
{
    let mut more = more;
    let ghost a = views(dst@);
    let ghost b = views(more@);
    dst.append(&mut more);
    assert(views(dst@) =~= a + b);
}

/// A conflict record.
fn conflict(a: &str, b: &str, t: ConflictType, description: String, severity: ConflictSeverity, resolution: String) -> (c: DependencyConflict)
    ensures
        c@ == (ConflictView { plugin_a: a@, plugin_b: b@, conflict_type: t, description: description@, severity, resolution: resolution@ }),
{
    DependencyConflict { plugin_a: owned(a), plugin_b: owned(b), conflict_type: t, description, severity, resolution }
}

/// The recorded dependencies of one plugin name.
pub struct NamedDependencies {
    pub name: String,
    pub dependencies: Vec<PluginDependency>,
}

impl Keyed for NamedDependencies {
    open spec fn key_view(&self) -> Seq<char> {
        self.name@
    }

    fn key_str(&self) -> (r: &str) {
        self.name.as_str()
    }
}

/// Taking out the plugin with id `id` from `m1` gave `m2` and returned `r`:
/// the plugin and the dependencies recorded under its name are gone, or
/// nothing changed when there was no such plugin.
pub open spec fn unregister_post(m1: DependencyResolver, m2: DependencyResolver, id: Seq<char>, r: Option<InstalledView>) -> bool {
    match r {
        Some(p) => m1.installed_map().dom().contains(id) && p == m1.installed_map()[id]
            && m2.installed_map() == m1.installed_map().remove(id)
            && m2.known() == m1.known().remove(p.name),
        None => !m1.installed_map().dom().contains(id)
            && m2.installed_map() == m1.installed_map()
            && m2.known() == m1.known(),
    }
}

/// The installed plugins by id, and the recorded dependencies by plugin name.
pub struct DependencyResolver {
    installed_plugins: Store<InstalledPlugin>,
    known_dependencies: Store<NamedDependencies>,
}

impl DependencyResolver {
    /// The installed plugins, in the order they are examined.
    pub closed spec fn installed(&self) -> Seq<InstalledView> {
        views(self.installed_plugins.items())
    }

    /// The installed plugins by id.
    pub closed spec fn installed_map(&self) -> Map<Seq<char>, InstalledView> {
        self.installed_plugins.map().map_values(|p: InstalledPlugin| p@)
    }

    /// The recorded dependencies by plugin name.
    pub closed spec fn known(&self) -> Map<Seq<char>, Seq<DependencyView>> {
        self.known_dependencies.map().map_values(|e: NamedDependencies| views(e.dependencies@))
    }

    /// The list of installed plugins holds each plugin of the map once.
    pub fn lemma_installed(&self)
        ensures
            self.installed().len() == self.installed_map().dom().len(),
            forall|i: int| 0 <= i < self.installed().len() ==> #[trigger] self.installed_map().dom().contains(self.installed()[i].id)
                && self.installed_map()[self.installed()[i].id] == self.installed()[i],
            forall|i: int, j: int| 0 <= i < self.installed().len() && 0 <= j < self.installed().len() && i != j
                ==> #[trigger] self.installed()[i].id != #[trigger] self.installed()[j].id,
    {
        self.installed_plugins.facts();
        proof {
            assert(self.installed_map().dom() =~= self.installed_plugins.map().dom());
            assert forall|i: int| 0 <= i < self.installed().len() implies #[trigger] self.installed_map().dom().contains(self.installed()[i].id)
                && self.installed_map()[self.installed()[i].id] == self.installed()[i] by {
                assert(self.installed_plugins.map().dom().contains(self.installed_plugins.items()[i].key_view()));
            }
            assert forall|i: int, j: int| 0 <= i < self.installed().len() && 0 <= j < self.installed().len() && i != j
                implies #[trigger] self.installed()[i].id != #[trigger] self.installed()[j].id by {
                assert(self.installed_plugins.items()[i].key_view() != self.installed_plugins.items()[j].key_view());
            }
        }
    }

    /// No plugins, no recorded dependencies.
    pub fn new() -> (r: DependencyResolver)
        ensures
            r.installed() == Seq::<InstalledView>::empty(),
            r.known() == Map::<Seq<char>, Seq<DependencyView>>::empty(),
    {
        let r = DependencyResolver { installed_plugins: Store::new(), known_dependencies: Store::new() };
        assert(r.installed() =~= Seq::<InstalledView>::empty());
        assert(r.known() =~= Map::<Seq<char>, Seq<DependencyView>>::empty());
        r
    }

    /// Records `plugin` under its id and its dependencies under its name.
    pub fn register_plugin(&mut self, plugin: InstalledPlugin)
        ensures
            final(self).installed_map() == old(self).installed_map().insert(plugin.id@, plugin@),
            final(self).known() == old(self).known().insert(plugin.name@, views(plugin.dependencies@)),
            !old(self).installed_map().dom().contains(plugin.id@) ==> final(self).installed() == old(self).installed().push(plugin@),
    {
        let ghost pv = plugin@;
        let deps = dup_vec(&plugin.dependencies);
        let entry = NamedDependencies { name: plugin.name.clone(), dependencies: deps };
        let ghost ev = views(entry.dependencies@);
        let ghost ek = entry.key_view();
        self.known_dependencies.upsert(entry);
        assert(self.known() =~= old(self).known().insert(ek, ev));
        self.installed_plugins.upsert(plugin);
        assert(self.installed_map() =~= old(self).installed_map().insert(pv.id, pv));
        proof {
            if !old(self).installed_map().dom().contains(pv.id) {
                assert(!old(self).installed_plugins.map().dom().contains(pv.id));
                assert(self.installed() =~= old(self).installed().push(pv));
            }
        }
    }

    /// Takes out the plugin with id `plugin_id` and the dependencies recorded
    /// under its name.
    pub fn unregister_plugin(&mut self, plugin_id: &str) -> (r: Option<InstalledPlugin>)
        ensures
            unregister_post(*old(self), *final(self), plugin_id@, match r { Some(p) => Some(p@), None => None }),
            r is None ==> final(self).installed() == old(self).installed(),
    {
        match self.installed_plugins.remove(plugin_id) {
            Some(p) => {
                assert(self.installed_map() =~= old(self).installed_map().remove(plugin_id@));
                let _ = self.known_dependencies.remove(p.name.as_str());
                assert(self.known() =~= old(self).known().remove(p.name@));
                Some(p)
            }
            None => None,
        }
    }

    /// The dependencies recorded for plugin name `name`.
    fn recorded_deps(&self, name: &str) -> (r: Option<&Vec<PluginDependency>>)
        ensures
            match r {
                Some(v) => views(v@) == deps_of(self.known(), name@),
                None => deps_of(self.known(), name@) == Seq::<DependencyView>::empty(),
            },
    {
        match self.known_dependencies.get(name) {
            Some(e) => Some(&e.dependencies),
            None => None,
        }
    }

    /// Every clash of installed plugin `i` with `p` (whose lower-case name is `lp`).
    fn conflicts_of_installed(&self, i: &InstalledPlugin, p: &Plugin, lp: &str) -> (r: Vec<DependencyConflict>)
        requires
            lp@ == lowercase(p.name@),
        ensures
            views(r@) == installed_conflicts(i@, deps_of(self.known(), i.name@), p.name@, p.version@, strings_view(p.supported_versions@)),
    {
        let li = to_lowercase(i.name.as_str());
        let mut r: Vec<DependencyConflict> = Vec::new();
        // the version clash
        if str_eq(li.as_str(), lp) {
            let mi = major_version(i.version.as_str());
            let mp = major_version(p.version.as_str());
            if !str_eq(mi.as_str(), mp.as_str()) {
                let d = owned("Version mismatch: installed ").concat(i.version.as_str()).concat(" but trying to install ").concat(p.version.as_str());
                let res = owned("Either keep version ").concat(i.version.as_str()).concat(" or uninstall current version first");
                r.push(conflict(i.name.as_str(), p.name.as_str(), ConflictType::Version, d, ConflictSeverity::Critical, res));
            }
        }
        assert(views(r@) =~= version_conflict(i@, p.name@, p.version@));
        // the dependency clashes
        let ghost before_deps = views(r@);
        let ghost deps = deps_of(self.known(), i.name@);
        let mut found: Vec<DependencyConflict> = Vec::new();
        match self.recorded_deps(i.name.as_str()) {
            Some(ds) => {
                let n = ds.len();
                let mut k: usize = 0;
                while k < n
                    invariant
                        n == ds@.len(),
                        views(ds@) == deps,
                        k <= n,
                        lp@ == lowercase(p.name@),
                        views(found@) == dep_conflicts(i@, deps.take(k as int), p.name@, p.version@),
                    decreases n - k,
                {
                    proof { assert(deps.take(k + 1).drop_last() =~= deps.take(k as int)); }
                    let ld = to_lowercase(ds[k].name.as_str());
                    if str_eq(ld.as_str(), lp) && !ds[k].version_match {
                        let d = owned("Hard dependency conflict: ").concat(i.name.as_str()).concat(" requires ").concat(p.name.as_str())
                            .concat(" version ").concat(ds[k].version.as_str()).concat(" but found ").concat(p.version.as_str());
                        let res = owned("Install a compatible version of ").concat(p.name.as_str()).concat(" (required: ")
                            .concat(ds[k].version.as_str()).concat(")");
                        let sev = if ds[k].required { ConflictSeverity::Critical } else { ConflictSeverity::Medium };
                        let ghost b = views(found@);
                        found.push(conflict(i.name.as_str(), p.name.as_str(), ConflictType::HardDependency, d, sev, res));
                        assert(views(found@) =~= b.push(dep_conflict(i@, deps[k as int], p.name@, p.version@)));
                    }
                    k = k + 1;
                }
                proof { assert(deps.take(n as int) =~= deps); }
            }
            None => {
                assert(found@.len() == 0);
                assert(views(found@) =~= dep_conflicts(i@, deps, p.name@, p.version@));
            }
        }
        append_conflicts(&mut r, found);
        // the API clash
        let ghost before_api = views(r@);
        if !share(&i.supported_versions, &p.supported_versions) {
            let d = owned("No common API versions: ").concat(i.name.as_str()).concat(" supports ")
                .concat(write_set(&i.supported_versions).as_str()).concat(" but ").concat(p.name.as_str())
                .concat(" supports ").concat(write_set(&p.supported_versions).as_str());
            let res = owned("One of these plugins may not work correctly. Consider alternatives.");
            r.push(conflict(i.name.as_str(), p.name.as_str(), ConflictType::ApiIncompatibility, d, ConflictSeverity::High, res));
        }
        assert(views(r@) =~= before_api + api_conflict(i@, p.name@, strings_view(p.supported_versions@)));
        // the command clash
        let ghost before_cmd = views(r@);
        if command_clash(li.as_str(), lp) {
            let d = owned(i.name.as_str()).concat(" and ").concat(p.name.as_str()).concat(" are known to have command conflicts");
            let res = owned("Use plugin prefixes for commands or disable one plugin");
            r.push(conflict(i.name.as_str(), p.name.as_str(), ConflictType::CommandConflict, d, ConflictSeverity::Medium, res));
        }
        assert(views(r@) =~= before_cmd + command_conflict(i@, p.name@));
        r
    }

    /// Every clash `new_plugin` would have with the installed plugins: for each
    /// installed plugin in turn, a version clash, dependency clashes, an API
    /// clash and a command clash; then look-alike clashes, group by group.
    pub fn check_conflicts(&self, new_plugin: &Plugin) -> (r: Vec<DependencyConflict>)
        ensures
            views(r@) == all_candidate_conflicts(self.installed(), self.known(), new_plugin.name@, new_plugin.version@,
                strings_view(new_plugin.supported_versions@)),
    {
        let lp = to_lowercase(new_plugin.name.as_str());
        let items = self.installed_plugins.as_vec();
        let ghost inst = self.installed();
        let ghost name = new_plugin.name@;
        let ghost version = new_plugin.version@;
        let ghost sup = strings_view(new_plugin.supported_versions@);
        let n = items.len();
        let mut r: Vec<DependencyConflict> = Vec::new();
        let mut i: usize = 0;
        while i < n
            invariant
                n == items@.len(),
                views(items@) == inst,
                inst == self.installed(),
                lp@ == lowercase(new_plugin.name@),
                name == new_plugin.name@,
                version == new_plugin.version@,
                sup == strings_view(new_plugin.supported_versions@),
                i <= n,
                views(r@) == conflicts_with_installed(inst.take(i as int), self.known(), name, version, sup),
            decreases n - i,
        {
            proof {
                assert(inst.take(i + 1).drop_last() =~= inst.take(i as int));
                assert(inst.take(i + 1).last() == items@[i as int]@);
            }
            let part = self.conflicts_of_installed(&items[i], new_plugin, lp.as_str());
            append_conflicts(&mut r, part);
            i = i + 1;
        }
        proof { assert(inst.take(n as int) =~= inst); }
        let mut g: usize = 0;
        while g < 3
            invariant
                n == items@.len(),
                views(items@) == inst,
                inst == self.installed(),
                lp@ == lowercase(new_plugin.name@),
                name == new_plugin.name@,
                g <= 3,
                views(r@) == conflicts_with_installed(inst, self.known(), name, version, sup)
                    + (if g >= 1 { group_conflicts(lookalike_group(0), inst, name) } else { seq![] })
                    + (if g >= 2 { group_conflicts(lookalike_group(1), inst, name) } else { seq![] })
                    + (if g >= 3 { group_conflicts(lookalike_group(2), inst, name) } else { seq![] }),
            decreases 3 - g,
        {
            let ghost before = views(r@);
            let mut found: Vec<DependencyConflict> = Vec::new();
            if in_group(g, lp.as_str()) {
                let mut j: usize = 0;
                while j < n
                    invariant
                        n == items@.len(),
                        views(items@) == inst,
                        lp@ == lowercase(new_plugin.name@),
                        name == new_plugin.name@,
                        g < 3,
                        j <= n,
                        views(found@) == group_matches(lookalike_group(g as int), inst.take(j as int), name),
                    decreases n - j,
                {
                    proof {
                        assert(inst.take(j + 1).drop_last() =~= inst.take(j as int));
                        assert(inst.take(j + 1).last() == items@[j as int]@);
                        assert(inst[j as int] == items@[j as int]@);
                    }
                    let lj = to_lowercase(items[j].name.as_str());
                    if in_group(g, lj.as_str()) && !str_eq(lj.as_str(), lp.as_str()) {
                        let d = owned("These plugins provide similar functionality: ").concat(items[j].name.as_str()).concat(" vs ")
                            .concat(new_plugin.name.as_str());
                        let res = owned("Choose one plugin that best fits your needs");
                        let ghost b = views(found@);
                        found.push(conflict(items[j].name.as_str(), new_plugin.name.as_str(), ConflictType::ResourceConflict, d,
                            ConflictSeverity::Medium, res));
                        assert(views(found@) =~= b.push(lookalike_conflict(inst[j as int], name)));
                    }
                    j = j + 1;
                }
                proof { assert(inst.take(n as int) =~= inst); }
            }
            assert(views(found@) =~= group_conflicts(lookalike_group(g as int), inst, name));
            append_conflicts(&mut r, found);
            proof {
                if g == 0 {
                    assert(views(r@) =~= conflicts_with_installed(inst, self.known(), name, version, sup)
                        + group_conflicts(lookalike_group(0), inst, name) + seq![] + seq![]);
                } else if g == 1 {
                    assert(views(r@) =~= conflicts_with_installed(inst, self.known(), name, version, sup)
                        + group_conflicts(lookalike_group(0), inst, name) + group_conflicts(lookalike_group(1), inst, name) + seq![]);
                }
            }
            g = g + 1;
        }
        r
    }

    /// The dependencies `plugin` commonly needs (by its lower-case name), each
    /// required, of any version, marked installed when a plugin of that name is.
    pub fn resolve_dependencies(&self, plugin: &Plugin) -> (r: Vec<PluginDependency>)
        ensures
            views(r@) == resolved_deps(self.installed(), plugin.name@),
    {
        let lp = to_lowercase(plugin.name.as_str());
        let names: Vec<String> = if str_eq(lp.as_str(), "worldedit") {
            vec![owned("craftbook")]
        } else if str_eq(lp.as_str(), "worldguard") {
            vec![owned("worldedit")]
        } else if str_eq(lp.as_str(), "vault") {
            vec![owned("permissionsex"), owned("luckperms"), owned("groupmanager")]
        } else if str_eq(lp.as_str(), "essentialsx") {
            vec![owned("vault")]
        } else if str_eq(lp.as_str(), "luckperms") {
            vec![owned("vault")]
        } else if str_eq(lp.as_str(), " Citizens") {
            vec![owned("skript")]
        } else {
            Vec::new()
        };
        let ghost ds = common_deps(lowercase(plugin.name@));
        assert(strings_view(names@) =~= ds);
        let items = self.installed_plugins.as_vec();
        let ghost inst = self.installed();
        let n = names.len();
        let m = items.len();
        let mut r: Vec<PluginDependency> = Vec::new();
        let mut k: usize = 0;
        while k < n
            invariant
                n == names@.len(),
                strings_view(names@) == ds,
                ds == common_deps(lowercase(plugin.name@)),
                m == items@.len(),
                views(items@) == inst,
                inst == self.installed(),
                k <= n,
                views(r@) == resolved_deps(inst, plugin.name@).take(k as int),
            decreases n - k,
        {
            let ln = to_lowercase(names[k].as_str());
            let mut found = false;
            let mut j: usize = 0;
            while j < m
                invariant
                    m == items@.len(),
                    views(items@) == inst,
                    n == names@.len(),
                    k < n,
                    j <= m,
                    ln@ == lowercase(names@[k as int]@),
                    found == exists|x: int| 0 <= x < j && #[trigger] lowercase(inst[x].name) == lowercase(names@[k as int]@),
                decreases m - j,
            {
                let lj = to_lowercase(items[j].name.as_str());
                if str_eq(lj.as_str(), ln.as_str()) {
                    assert(lowercase(inst[j as int].name) == lowercase(names@[k as int]@));
                    found = true;
                }
                j = j + 1;
            }
            let ghost before = views(r@);
            let dep = PluginDependency { name: names[k].clone(), version: owned("*"), required: true, installed: found, version_match: true };
            let ghost dv = dep@;
            r.push(dep);
            assert(names@[k as int]@ == ds[k as int]);
            assert(found == installed_named(inst, ds[k as int]));
            assert(dv == resolved_deps(inst, plugin.name@)[k as int]);
            assert(views(r@) =~= before.push(dv));
            assert(views(r@) =~= resolved_deps(inst, plugin.name@).take(k + 1));
            k = k + 1;
        }
        assert(resolved_deps(inst, plugin.name@).take(n as int) =~= resolved_deps(inst, plugin.name@));
        r
    }

    /// The clash between installed plugins `a` and `b`, if any.
    fn pair_clash(&self, a: &InstalledPlugin, b: &InstalledPlugin) -> (r: Vec<DependencyConflict>)
        ensures
            views(r@) == pair_conflict(a@, b@, self.known()),
    {
        let ghost ds = deps_of(self.known(), a.name@);
        let lb = to_lowercase(b.name.as_str());
        let mut hit = false;
        match self.recorded_deps(a.name.as_str()) {
            Some(v) => {
                let n = v.len();
                let mut k: usize = 0;
                while k < n
                    invariant
                        n == v@.len(),
                        views(v@) == ds,
                        k <= n,
                        lb@ == lowercase(b.name@),
                        hit == exists|x: int| 0 <= x < k && #[trigger] lowercase(ds[x].name) == lowercase(b.name@) && !ds[x].version_match,
                    decreases n - k,
                {
                    let ld = to_lowercase(v[k].name.as_str());
                    if str_eq(ld.as_str(), lb.as_str()) && !v[k].version_match {
                        assert(lowercase(ds[k as int].name) == lowercase(b.name@) && !ds[k as int].version_match);
                        hit = true;
                    }
                    k = k + 1;
                }
            }
            None => {}
        }
        let mut r: Vec<DependencyConflict> = Vec::new();
        if hit {
            let d = owned("Version mismatch between ").concat(a.name.as_str()).concat(" and ").concat(b.name.as_str());
            let res = owned("Update one of the plugins to a compatible version");
            r.push(conflict(a.name.as_str(), b.name.as_str(), ConflictType::HardDependency, d, ConflictSeverity::High, res));
        }
        assert(views(r@) =~= pair_conflict(a@, b@, self.known()));
        r
    }

    /// The clashes between the installed plugins, pair by pair: for each
    /// plugin, a clash with each later one whose name a dependency recorded
    /// for it names without a matching version.
    pub fn get_all_conflicts(&self) -> (r: Vec<DependencyConflict>)
        ensures
            views(r@) == all_pair_conflicts(self.installed(), self.known()),
    {
        let items = self.installed_plugins.as_vec();
        let ghost inst = self.installed();
        let ghost known = self.known();
        let n = items.len();
        let mut r: Vec<DependencyConflict> = Vec::new();
        let mut i: usize = 0;
        while i < n
            invariant
                n == items@.len(),
                views(items@) == inst,
                inst == self.installed(),
                known == self.known(),
                i <= n,
                views(r@) == pairs_before(inst, known, i as nat),
            decreases n - i,
        {
            let mut j: usize = i + 1;
            let ghost start = views(r@);
            while j < n
                invariant
                    n == items@.len(),
                    views(items@) == inst,
                    inst == self.installed(),
                    known == self.known(),
                    i < n,
                    i + 1 <= j <= n,
                    views(r@) == start + row_conflicts(inst, known, i as nat, j as nat),
                decreases n - j,
            {
                let part = self.pair_clash(&items[i], &items[j]);
                proof {
                    assert(items@[i as int]@ == inst[i as int]);
                    assert(items@[j as int]@ == inst[j as int]);
                }
                append_conflicts(&mut r, part);
                j = j + 1;
                assert(views(r@) =~= start + row_conflicts(inst, known, i as nat, j as nat));
            }
            i = i + 1;
            assert(views(r@) =~= pairs_before(inst, known, i as nat));
        }
        r
    }

    /// The compatibility matrix of the installed plugins, in list order: "SELF"
    /// where the names are equal, "CONFLICT" where the two are recorded as
    /// clashing (either way round), otherwise "OK".
    pub fn get_compatibility_matrix(&self) -> (r: Vec<Vec<String>>)
        ensures
            r@.map_values(|row: Vec<String>| strings_view(row@)) == matrix_of(self.installed(), self.known()),
    {
        let cs = self.get_all_conflicts();
        let items = self.installed_plugins.as_vec();
        let ghost inst = self.installed();
        let ghost all = views(cs@);
        let n = items.len();
        let mut r: Vec<Vec<String>> = Vec::new();
        let mut x: usize = 0;
        while x < n
            invariant
                n == items@.len(),
                views(items@) == inst,
                inst == self.installed(),
                all == views(cs@),
                all == all_pair_conflicts(inst, self.known()),
                x <= n,
                r@.map_values(|row: Vec<String>| strings_view(row@)) == matrix_of(inst, self.known()).take(x as int),
            decreases n - x,
        {
            let mut row: Vec<String> = Vec::new();
            let mut y: usize = 0;
            while y < n
                invariant
                    n == items@.len(),
                    views(items@) == inst,
                    all == views(cs@),
                    all == all_pair_conflicts(inst, self.known()),
                    x < n,
                    y <= n,
                    strings_view(row@) == Seq::new(y as nat, |k: int| matrix_cell(inst[x as int].name, inst[k].name, all)),
                decreases n - y,
            {
                let a = items[x].name.as_str();
                let b = items[y].name.as_str();
                proof {
                    assert(items@[x as int]@ == inst[x as int]);
                    assert(items@[y as int]@ == inst[y as int]);
                }
                let cell = if str_eq(a, b) {
                    owned("SELF")
                } else if has_clash(&cs, a, b) {
                    owned("CONFLICT")
                } else {
                    owned("OK")
                };
                assert(cell@ == matrix_cell(inst[x as int].name, inst[y as int].name, all));
                let ghost before = strings_view(row@);
                let ghost cv = cell@;
                row.push(cell);
                assert(strings_view(row@) =~= before.push(cv));
                assert(strings_view(row@) =~= Seq::new((y + 1) as nat, |k: int| matrix_cell(inst[x as int].name, inst[k].name, all)));
                y = y + 1;
            }
            let ghost before = r@.map_values(|row: Vec<String>| strings_view(row@));
            let ghost rv = strings_view(row@);
            r.push(row);
            assert(r@.map_values(|row: Vec<String>| strings_view(row@)) =~= before.push(rv));
            x = x + 1;
            assert(r@.map_values(|row: Vec<String>| strings_view(row@)) =~= matrix_of(inst, self.known()).take(x as int));
        }
        assert(matrix_of(inst, self.known()).take(n as int) =~= matrix_of(inst, self.known()));
        r
    }
}

/// Whether `cs` records a clash between plugins named `a` and `b`, either way round.
fn has_clash(cs: &Vec<DependencyConflict>, a: &str, b: &str) -> (r: bool)
    ensures
        r == clash_between(views(cs@), a@, b@),
{
    let n = cs.len();
    let mut k: usize = 0;
    while k < n
        invariant
            n == cs@.len(),
            k <= n,
            forall|j: int| 0 <= j < k ==> !((#[trigger] views(cs@)[j].plugin_a == a@ && views(cs@)[j].plugin_b == b@)
                || (views(cs@)[j].plugin_a == b@ && views(cs@)[j].plugin_b == a@)),
        decreases n - k,
    {
        let c = &cs[k];
        if (str_eq(c.plugin_a.as_str(), a) && str_eq(c.plugin_b.as_str(), b))
            || (str_eq(c.plugin_a.as_str(), b) && str_eq(c.plugin_b.as_str(), a)) {
            assert(views(cs@)[k as int].plugin_a == c.plugin_a@);
            return true;
        }
        assert(views(cs@)[k as int] == cs@[k as int]@);
        k = k + 1;
    }
    false
}

// ---------------------------------------------------------------------------
// Laws
// ---------------------------------------------------------------------------

/// Every plugin is "SELF" against itself in the compatibility matrix.
pub proof fn law_matrix_diagonal_is_self(inst: Seq<InstalledView>, known: Map<Seq<char>, Seq<DependencyView>>, x: int)
    requires
        0 <= x < inst.len(),
    ensures
        matrix_of(inst, known)[x][x] == "SELF"@,
{
}

/// The compatibility matrix is symmetric.
pub proof fn law_matrix_is_symmetric(inst: Seq<InstalledView>, known: Map<Seq<char>, Seq<DependencyView>>, x: int, y: int)
    requires
        0 <= x < inst.len(),
        0 <= y < inst.len(),
    ensures
        matrix_of(inst, known)[x][y] == matrix_of(inst, known)[y][x],
{
    let cs = all_pair_conflicts(inst, known);
    let a = inst[x].name;
    let b = inst[y].name;
    if clash_between(cs, a, b) {
        let k = choose|k: int| 0 <= k < cs.len()
            && ((#[trigger] cs[k].plugin_a == a && cs[k].plugin_b == b) || (cs[k].plugin_a == b && cs[k].plugin_b == a));
        assert(clash_between(cs, b, a));
    }
    if clash_between(cs, b, a) {
        let k = choose|k: int| 0 <= k < cs.len()
            && ((#[trigger] cs[k].plugin_a == b && cs[k].plugin_b == a) || (cs[k].plugin_a == a && cs[k].plugin_b == b));
        assert(clash_between(cs, a, b));
    }
}

/// With nothing installed, no candidate has any conflict.
pub proof fn law_nothing_installed_no_conflicts(known: Map<Seq<char>, Seq<DependencyView>>, name: Seq<char>, version: Seq<char>, supported: Seq<Seq<char>>)
    ensures
        all_candidate_conflicts(Seq::<InstalledView>::empty(), known, name, version, supported) == Seq::<ConflictView>::empty(),
{
    let e = Seq::<InstalledView>::empty();
    assert(group_matches(lookalike_group(0), e, name) == Seq::<ConflictView>::empty());
    assert(group_matches(lookalike_group(1), e, name) == Seq::<ConflictView>::empty());
    assert(group_matches(lookalike_group(2), e, name) == Seq::<ConflictView>::empty());
    assert(all_candidate_conflicts(e, known, name, version, supported) =~= Seq::<ConflictView>::empty());
}

/// Registering a plugin under a new id and name and then taking it out again
/// leaves the resolver as it was.
pub proof fn law_register_then_unregister(m1: DependencyResolver, m2: DependencyResolver, m3: DependencyResolver, p: InstalledView, r: Option<InstalledView>)
    requires
        !m1.installed_map().dom().contains(p.id),
        !m1.known().dom().contains(p.name),
        m2.installed_map() == m1.installed_map().insert(p.id, p),
        m2.known() == m1.known().insert(p.name, p.dependencies),
        unregister_post(m2, m3, p.id, r),
    ensures
        r == Some(p),
        m3.installed_map() == m1.installed_map(),
        m3.known() == m1.known(),
{
    assert(m3.installed_map() =~= m1.installed_map());
    assert(m3.known() =~= m1.known());
}

} // verus!
