//! How well marketplace plugins suit the server: a score from 0 to 100 made
//! of penalties for unsupported versions, pre-releases, an old plugin API, a
//! missing description and a low rating, and a bonus for trusted authors;
//! scores are cached by plugin id until the server version changes. Scores
//! are whole multiples of five; reported scores and ratings are carried as
//! IEEE double bit patterns.
use vstd::prelude::*;
use crate::keyed::{Keyed, Store, lemma_store_keys};
use crate::text::{owned, str_eq, strings_view, copy_strings, lowercase, to_lowercase, has_substring, has_substring_exec,
    chars_of, string_from_chars, i64_to_decimal, signed_decimal, contains_str};
use crate::dup::{Duplicate, views};
use crate::monitor::types::{double_lt, double_le, double_less, double_less_eq};
use crate::monitor::disk_io::{begins_with, begins_with_exec};
use crate::plugins::types::{Plugin, PluginView, PluginCompatibility, CompatibilityView};

verus! {

// ---------------------------------------------------------------------------
// The score
// ---------------------------------------------------------------------------

/// `s` cut just before its second '.', when `seen` dots came before it.
pub open spec fn cut_second_dot(s: Seq<char>, seen: nat) -> Seq<char>
    decreases s.len(),
{
    if s.len() == 0 {
        s
    } else if s[0] == '.' && seen >= 1 {
        seq![]
    } else {
        seq![s[0]] + cut_second_dot(s.drop_first(), if s[0] == '.' { seen + 1 } else { seen })
    }
}

/// The major and minor parts of a version: the first two of its
/// '.'-separated parts joined by '.', or the whole version when it has one
/// part ("1.20.4" gives "1.20").
pub open spec fn major_minor(v: Seq<char>) -> Seq<char> {
    cut_second_dot(v, 0)
}

/// How many versions of `vs` have major and minor parts other than `mm`.
pub open spec fn mismatches(vs: Seq<Seq<char>>, mm: Seq<char>) -> nat
    decreases vs.len(),
{
    if vs.len() == 0 {
        0
    } else {
        mismatches(vs.drop_last(), mm) + if major_minor(vs.last()) != mm { 1nat } else { 0nat }
    }
}

/// Whether version `v` is a pre-release: it mentions "alpha" or "beta".
pub open spec fn prerelease(v: Seq<char>) -> bool {
    has_substring(v, "alpha"@) || has_substring(v, "beta"@)
}

/// How many versions of `vs` are pre-releases.
pub open spec fn prereleases(vs: Seq<Seq<char>>) -> nat
    decreases vs.len(),
{
    if vs.len() == 0 {
        0
    } else {
        prereleases(vs.drop_last()) + if prerelease(vs.last()) { 1nat } else { 0nat }
    }
}

/// The penalty for the supported versions: 30 when there are none,
/// otherwise 10 for each pre-release.
pub open spec fn gap_penalty(vs: Seq<Seq<char>>) -> int {
    if vs.len() == 0 { 30 } else { 10 * (prereleases(vs) as int) }
}

/// The plugin API versions considered old.
pub open spec fn old_apis() -> Seq<Seq<char>> {
    seq!["1.8"@, "1.9"@, "1.10"@, "1.11"@, "1.12"@]
}

/// The penalty for an old plugin API: 25 when `api` begins with an old one.
pub open spec fn old_api_penalty(api: Seq<char>) -> int {
    if exists|k: int| 0 <= k < old_apis().len() && #[trigger] begins_with(api, old_apis()[k]) { 25 } else { 0 }
}

/// The authors whose plugins are trusted.
pub open spec fn trusted_authors() -> Seq<Seq<char>> {
    seq!["sk89q"@, "wizjany"@, "luck"@, "mdc"@]
}

/// Whether one of `authors` is trusted.
pub open spec fn is_verified(authors: Seq<Seq<char>>) -> bool {
    exists|i: int| 0 <= i < authors.len() && #[trigger] trusted_authors().contains(authors[i])
}

/// The bit pattern of the double 3.0.
pub const THREE_BITS: u64 = 0x4008_0000_0000_0000u64;

/// The score of plugin `p` on server version `server` before clamping.
pub open spec fn raw_score(server: Seq<char>, p: PluginView) -> int {
    let vs = p.supported_versions;
    100
        - (if vs.contains(server) { 0int } else { 40int })
        - 20 * mismatches(vs, major_minor(server))
        - gap_penalty(vs)
        - old_api_penalty(p.compatibility.api_version)
        - (if p.description is None || p.description.unwrap().len() == 0 { 5int } else { 0int })
        - (if double_lt(p.stats.average_rating_bits, THREE_BITS) { 10int } else { 0int })
        + (if is_verified(p.authors) { 5int } else { 0int })
}

/// The compatibility score of plugin `p` on server version `server`:
/// `raw_score` kept between 0 and 100.
pub open spec fn compat_score(server: Seq<char>, p: PluginView) -> u64 {
    let r = raw_score(server, p);
    if r < 0 { 0 } else if r > 100 { 100 } else { r as u64 }
}

/// The bit pattern of the double holding the whole number `s`, for the
/// multiples of five from 0 to 100 (the scores there are), and 0 otherwise.
pub open spec fn whole_bits(s: u64) -> u64 {
    if s == 5 { 0x4014_0000_0000_0000 }
    else if s == 10 { 0x4024_0000_0000_0000 }
    else if s == 15 { 0x402e_0000_0000_0000 }
    else if s == 20 { 0x4034_0000_0000_0000 }
    else if s == 25 { 0x4039_0000_0000_0000 }
    else if s == 30 { 0x403e_0000_0000_0000 }
    else if s == 35 { 0x4041_8000_0000_0000 }
    else if s == 40 { 0x4044_0000_0000_0000 }
    else if s == 45 { 0x4046_8000_0000_0000 }
    else if s == 50 { 0x4049_0000_0000_0000 }
    else if s == 55 { 0x404b_8000_0000_0000 }
    else if s == 60 { 0x404e_0000_0000_0000 }
    else if s == 65 { 0x4050_4000_0000_0000 }
    else if s == 70 { 0x4051_8000_0000_0000 }
    else if s == 75 { 0x4052_c000_0000_0000 }
    else if s == 80 { 0x4054_0000_0000_0000 }
    else if s == 85 { 0x4055_4000_0000_0000 }
    else if s == 90 { 0x4056_8000_0000_0000 }
    else if s == 95 { 0x4057_c000_0000_0000 }
    else if s == 100 { 0x4059_0000_0000_0000 }
    else { 0 }
}

/// The double bit pattern of score `s` (see `whole_bits`).
pub fn score_bits(s: u64) -> (b: u64)
    ensures
        b == whole_bits(s),
{
    if s == 5 { 0x4014_0000_0000_0000 }
    else if s == 10 { 0x4024_0000_0000_0000 }
    else if s == 15 { 0x402e_0000_0000_0000 }
    else if s == 20 { 0x4034_0000_0000_0000 }
    else if s == 25 { 0x4039_0000_0000_0000 }
    else if s == 30 { 0x403e_0000_0000_0000 }
    else if s == 35 { 0x4041_8000_0000_0000 }
    else if s == 40 { 0x4044_0000_0000_0000 }
    else if s == 45 { 0x4046_8000_0000_0000 }
    else if s == 50 { 0x4049_0000_0000_0000 }
    else if s == 55 { 0x404b_8000_0000_0000 }
    else if s == 60 { 0x404e_0000_0000_0000 }
    else if s == 65 { 0x4050_4000_0000_0000 }
    else if s == 70 { 0x4051_8000_0000_0000 }
    else if s == 75 { 0x4052_c000_0000_0000 }
    else if s == 80 { 0x4054_0000_0000_0000 }
    else if s == 85 { 0x4055_4000_0000_0000 }
    else if s == 90 { 0x4056_8000_0000_0000 }
    else if s == 95 { 0x4057_c000_0000_0000 }
    else if s == 100 { 0x4059_0000_0000_0000 }
    else { 0 }
}

/// The rating word for a score (given as a double bit pattern): 90 and up
/// "Excellent", 75 "Good", 50 "Fair", 25 "Poor", below (or not a number)
/// "Incompatible".
pub open spec fn rating_word(bits: u64) -> Seq<char> {
    if double_le(0x4056_8000_0000_0000, bits) { "Excellent"@ }
    else if double_le(0x4052_c000_0000_0000, bits) { "Good"@ }
    else if double_le(0x4049_0000_0000_0000, bits) { "Fair"@ }
    else if double_le(0x4039_0000_0000_0000, bits) { "Poor"@ }
    else { "Incompatible"@ }
}

proof fn lemma_cut_step(s: Seq<char>, seen: nat)
    requires
        s.len() > 0,
        !(s[0] == '.' && seen >= 1),
    ensures
        cut_second_dot(s, seen) == seq![s[0]] + cut_second_dot(s.drop_first(), if s[0] == '.' { seen + 1 } else { seen }),
{
}

/// The major and minor parts of `version` (see `major_minor`).
fn major_minor_of(version: &str) -> (r: String)
    ensures
        r@ == major_minor(version@),
{
    let v = chars_of(version);
    let n = v.len();
    let mut out: Vec<char> = Vec::new();
    let mut dots: u64 = 0;
    let mut i: usize = 0;
    proof {
        assert(v@.skip(0) =~= v@);
        assert(out@ + cut_second_dot(v@, 0) =~= cut_second_dot(v@, 0));
    }
    while i < n
        invariant
            n == v@.len(),
            v@ == version@,
            i <= n,
            dots <= 1,
            out@ == v@.take(i as int),
            major_minor(v@) == out@ + cut_second_dot(v@.skip(i as int), dots as nat),
        decreases n - i,
    {
        let c = v[i];
        if c == '.' && dots >= 1 {
            assert(cut_second_dot(v@.skip(i as int), dots as nat) =~= Seq::<char>::empty());
            assert(out@ + Seq::<char>::empty() =~= out@);
            return string_from_chars(&out);
        }
        proof {
            let t = v@.skip(i as int);
            lemma_cut_step(t, dots as nat);
            assert(t.drop_first() =~= v@.skip(i + 1));
            assert(out@.push(c) + cut_second_dot(v@.skip(i + 1), if c == '.' { dots as nat + 1 } else { dots as nat })
                =~= out@ + (seq![c] + cut_second_dot(v@.skip(i + 1), if c == '.' { dots as nat + 1 } else { dots as nat })));
            assert(v@.take(i + 1) =~= v@.take(i as int).push(c));
        }
        out.push(c);
        if c == '.' {
            dots = dots + 1;
        }
        i = i + 1;
    }
    proof {
        assert(v@.skip(n as int) =~= Seq::<char>::empty());
        assert(out@ + Seq::<char>::empty() =~= out@);
    }
    string_from_chars(&out)
}

/// Whether `api` begins with an old plugin API version.
fn is_old_api(api: &str) -> (b: bool)
    ensures
        b == (old_api_penalty(api@) == 25),
{
    let a = chars_of(api);
    let olds = vec![owned("1.8"), owned("1.9"), owned("1.10"), owned("1.11"), owned("1.12")];
    assert(strings_view(olds@) =~= old_apis());
    let n = olds.len();
    let mut k: usize = 0;
    while k < n
        invariant
            n == olds@.len(),
            strings_view(olds@) == old_apis(),
            a@ == api@,
            k <= n,
            forall|j: int| 0 <= j < k ==> !#[trigger] begins_with(api@, old_apis()[j]),
        decreases n - k,
    {
        if begins_with_exec(&a, olds[k].as_str()) {
            assert(begins_with(api@, old_apis()[k as int]));
            return true;
        }
        k = k + 1;
    }
    false
}

/// Whether one of `authors` is trusted.
fn has_trusted_author(authors: &Vec<String>) -> (b: bool)
    ensures
        b == is_verified(strings_view(authors@)),
{
    let trusted = vec![owned("sk89q"), owned("wizjany"), owned("luck"), owned("mdc")];
    assert(strings_view(trusted@) =~= trusted_authors());
    let n = authors.len();
    let mut i: usize = 0;
    while i < n
        invariant
            n == authors@.len(),
            strings_view(trusted@) == trusted_authors(),
            i <= n,
            forall|j: int| 0 <= j < i ==> !#[trigger] trusted_authors().contains(strings_view(authors@)[j]),
        decreases n - i,
    {
        if contains_str(&trusted, authors[i].as_str()) {
            assert(trusted_authors().contains(strings_view(authors@)[i as int]));
            return true;
        }
        i = i + 1;
    }
    false
}

/// The rating word for a score given as a double bit pattern (see `rating_word`).
pub fn compatibility_rating(score_bits: u64) -> (r: String)
    ensures
        r@ == rating_word(score_bits),
{
    if double_less_eq(0x4056_8000_0000_0000, score_bits) {
        owned("Excellent")
    } else if double_less_eq(0x4052_c000_0000_0000, score_bits) {
        owned("Good")
    } else if double_less_eq(0x4049_0000_0000_0000, score_bits) {
        owned("Fair")
    } else if double_less_eq(0x4039_0000_0000_0000, score_bits) {
        owned("Poor")
    } else {
        owned("Incompatible")
    }
}

/// The compatibility score of `plugin` on server version `server` (see `compat_score`).
pub fn calculate_compatibility_score(server: &str, plugin: &Plugin) -> (s: u64)
    ensures
        s == compat_score(server@, plugin@),
{
    let p = plugin;
    let ghost vs = strings_view(p.supported_versions@);
    let mut score: i128 = 100;
    if !contains_str(&p.supported_versions, server) {
        score = score - 40;
    }
    let server_mm = major_minor_of(server);
    let n = p.supported_versions.len();
    let mut i: usize = 0;
    let mut mism: u64 = 0;
    let mut pre: u64 = 0;
    while i < n
        invariant
            n == p.supported_versions@.len(),
            vs == strings_view(p.supported_versions@),
            server_mm@ == major_minor(server@),
            i <= n,
            mism == mismatches(vs.take(i as int), major_minor(server@)),
            pre == prereleases(vs.take(i as int)),
            mism <= i,
            pre <= i,
        decreases n - i,
    {
        proof {
            assert(vs.take(i + 1).drop_last() =~= vs.take(i as int));
            assert(vs.take(i + 1).last() == vs[i as int]);
        }
        let mm = major_minor_of(p.supported_versions[i].as_str());
        if !str_eq(mm.as_str(), server_mm.as_str()) {
            mism = mism + 1;
        }
        let v = p.supported_versions[i].as_str();
        if has_substring_exec(v, "alpha") || has_substring_exec(v, "beta") {
            pre = pre + 1;
        }
        i = i + 1;
    }
    proof { assert(vs.take(n as int) =~= vs); }
    score = score - 20 * (mism as i128);
    if n == 0 {
        score = score - 30;
    } else {
        score = score - 10 * (pre as i128);
    }
    if is_old_api(p.compatibility.api_version.as_str()) {
        score = score - 25;
    }
    let no_description = match &p.description {
        None => true,
        Some(d) => d.unicode_len() == 0,
    };
    if no_description {
        score = score - 5;
    }
    if double_less(p.stats.average_rating_bits, THREE_BITS) {
        score = score - 10;
    }
    if has_trusted_author(&p.authors) {
        score = score + 5;
    }
    assert(score == raw_score(server@, plugin@));
    if score < 0 {
        0
    } else if score > 100 {
        100
    } else {
        score as u64
    }
}

// ---------------------------------------------------------------------------
// The analyzer
// ---------------------------------------------------------------------------

/// A cached score of a plugin, by the plugin's id as text.
pub struct CachedScore {
    pub plugin_id: String,
    pub score: u64,
}

impl Keyed for CachedScore {
    open spec fn key_view(&self) -> Seq<char> {
        self.plugin_id@
    }

    fn key_str(&self) -> (r: &str) {
        self.plugin_id.as_str()
    }
}

/// The known issues of a plugin, by its lower-case name.
pub struct KnownIssues {
    pub plugin: String,
    pub issues: Vec<String>,
}

impl Keyed for KnownIssues {
    open spec fn key_view(&self) -> Seq<char> {
        self.plugin@
    }

    fn key_str(&self) -> (r: &str) {
        self.plugin.as_str()
    }
}

/// The known issues of the plugins the analyzer starts with.
pub open spec fn default_issues() -> Map<Seq<char>, Seq<Seq<char>>> {
    map![
        "worldedit"@ => seq!["Version 7.x requires Paper 1.14+"@, "Some expressions may not work on Spigot"@],
        "worldguard"@ => seq!["Requires WorldEdit to be installed"@, "Region flags may conflict with core plugins"@],
    ]
}

/// The cache key of plugin `p`: its numeric id as text.
pub open spec fn cache_key(p: PluginView) -> Seq<char> {
    signed_decimal(p.plugin_id as int)
}

/// The score reported for `p` with cache `c`: the cached one if any,
/// otherwise the computed one.
pub open spec fn reported(c: Map<Seq<char>, u64>, server: Seq<char>, p: PluginView) -> u64 {
    if c.dom().contains(cache_key(p)) { c[cache_key(p)] } else { compat_score(server, p) }
}

/// The cache after reporting on `p`.
pub open spec fn cache_after(c: Map<Seq<char>, u64>, server: Seq<char>, p: PluginView) -> Map<Seq<char>, u64> {
    c.insert(cache_key(p), reported(c, server, p))
}

/// The known issues listed for the plugin named `name`.
pub open spec fn issues_for(issues: Map<Seq<char>, Seq<Seq<char>>>, name: Seq<char>) -> Seq<Seq<char>> {
    if issues.dom().contains(lowercase(name)) { issues[lowercase(name)] } else { seq![] }
}

/// The assessment of `p` with cache `c`.
pub open spec fn assessment(c: Map<Seq<char>, u64>, server: Seq<char>, api: Seq<char>, issues: Map<Seq<char>, Seq<Seq<char>>>, p: PluginView) -> CompatibilityView {
    CompatibilityView {
        compatibility_score_bits: whole_bits(reported(c, server, p)),
        server_version: server,
        api_version: api,
        known_issues: issues_for(issues, p.name),
        verified: is_verified(p.authors),
    }
}

/// The cache after reporting on each of `ps` in turn.
pub open spec fn cache_after_all(c: Map<Seq<char>, u64>, server: Seq<char>, ps: Seq<PluginView>) -> Map<Seq<char>, u64>
    decreases ps.len(),
{
    if ps.len() == 0 { c } else { cache_after(cache_after_all(c, server, ps.drop_last()), server, ps.last()) }
}

/// Whether `p` is a candidate alternative to `target`: same category, other name.
pub open spec fn candidate(p: PluginView, target: PluginView) -> bool {
    p.category == target.category && p.name != target.name
}

/// The cache after scanning `ps` for alternatives to `target`: only
/// candidates are scored.
pub open spec fn alt_cache(c: Map<Seq<char>, u64>, server: Seq<char>, target: PluginView, ps: Seq<PluginView>) -> Map<Seq<char>, u64>
    decreases ps.len(),
{
    if ps.len() == 0 {
        c
    } else {
        let prev = alt_cache(c, server, target, ps.drop_last());
        if candidate(ps.last(), target) { cache_after(prev, server, ps.last()) } else { prev }
    }
}

/// The candidates of `ps` scored above `bar`, in order, each scored with the
/// cache as the scan left it.
pub open spec fn alternatives(c: Map<Seq<char>, u64>, server: Seq<char>, target: PluginView, bar: u64, ps: Seq<PluginView>) -> Seq<PluginView>
    decreases ps.len(),
{
    if ps.len() == 0 {
        seq![]
    } else {
        let prev = alternatives(c, server, target, bar, ps.drop_last());
        let cache = alt_cache(c, server, target, ps.drop_last());
        if candidate(ps.last(), target) && reported(cache, server, ps.last()) > bar { prev.push(ps.last()) } else { prev }
    }
}

/// Scores plugins for the server: its version and plugin API version, the
/// known issues by plugin, and the scores computed so far.
pub struct CompatibilityAnalyzer {
    server_version: String,
    api_version: String,
    known_issues: Store<KnownIssues>,
    compatibility_cache: Store<CachedScore>,
}

impl CompatibilityAnalyzer {
    /// The server version.
    pub closed spec fn server(&self) -> Seq<char> {
        self.server_version@
    }

    /// The plugin API version of the server.
    pub closed spec fn api(&self) -> Seq<char> {
        self.api_version@
    }

    /// The known issues by lower-case plugin name.
    pub closed spec fn issues(&self) -> Map<Seq<char>, Seq<Seq<char>>> {
        self.known_issues.map().map_values(|k: KnownIssues| strings_view(k.issues@))
    }

    /// The cached scores by plugin id.
    pub closed spec fn cache(&self) -> Map<Seq<char>, u64> {
        self.compatibility_cache.map().map_values(|c: CachedScore| c.score)
    }

    /// An analyzer for server version `server_version` and plugin API
    /// `api_version`, knowing the issues of WorldEdit and WorldGuard.
    pub fn new(server_version: String, api_version: String) -> (a: CompatibilityAnalyzer)
        ensures
            a.server() == server_version@,
            a.api() == api_version@,
            a.issues() == default_issues(),
            a.cache() == Map::<Seq<char>, u64>::empty(),
    {
        let mut known_issues: Store<KnownIssues> = Store::new();
        let we = vec![owned("Version 7.x requires Paper 1.14+"), owned("Some expressions may not work on Spigot")];
        let wg = vec![owned("Requires WorldEdit to be installed"), owned("Region flags may conflict with core plugins")];
        let ghost wev = strings_view(we@);
        let ghost wgv = strings_view(wg@);
        known_issues.upsert(KnownIssues { plugin: owned("worldedit"), issues: we });
        known_issues.upsert(KnownIssues { plugin: owned("worldguard"), issues: wg });
        let a = CompatibilityAnalyzer { server_version, api_version, known_issues, compatibility_cache: Store::new() };
        proof {
            reveal_strlit("worldedit");
            reveal_strlit("worldguard");
            assert(wev =~= seq!["Version 7.x requires Paper 1.14+"@, "Some expressions may not work on Spigot"@]);
            assert(wgv =~= seq!["Requires WorldEdit to be installed"@, "Region flags may conflict with core plugins"@]);
            assert(a.issues() =~= default_issues());
            assert(a.cache() =~= Map::<Seq<char>, u64>::empty());
        }
        a
    }

    /// The known issues of the plugin named `name`.
    fn issues_of(&self, name: &str) -> (v: Vec<String>)
        ensures
            strings_view(v@) == issues_for(self.issues(), name@),
    {
        let lower = to_lowercase(name);
        proof { lemma_store_keys(self.known_issues); }
        match self.known_issues.get(lower.as_str()) {
            Some(k) => copy_strings(&k.issues),
            None => Vec::new(),
        }
    }

    /// The score of `plugin`: the cached one when its id was scored before,
    /// otherwise computed and cached.
    fn cached_score(&mut self, plugin: &Plugin) -> (s: u64)
        ensures
            s == reported(old(self).cache(), old(self).server(), plugin@),
            final(self).cache() == cache_after(old(self).cache(), old(self).server(), plugin@),
            final(self).server() == old(self).server(),
            final(self).api() == old(self).api(),
            final(self).issues() == old(self).issues(),
    {
        let key = i64_to_decimal(plugin.plugin_id);
        proof { lemma_store_keys(self.compatibility_cache); }
        let score = match self.compatibility_cache.get(key.as_str()) {
            Some(c) => c.score,
            None => calculate_compatibility_score(self.server_version.as_str(), plugin),
        };
        self.compatibility_cache.upsert(CachedScore { plugin_id: key, score });
        assert(self.cache() =~= cache_after(old(self).cache(), old(self).server(), plugin@));
        score
    }

    /// Assesses `plugin`: its score is the cached one when its id was scored
    /// before, otherwise computed and cached; with the server's versions, the
    /// plugin's known issues and whether a trusted author wrote it.
    pub fn analyze_compatibility(&mut self, plugin: &Plugin) -> (r: PluginCompatibility)
        ensures
            r@ == assessment(old(self).cache(), old(self).server(), old(self).api(), old(self).issues(), plugin@),
            final(self).cache() == cache_after(old(self).cache(), old(self).server(), plugin@),
            final(self).server() == old(self).server(),
            final(self).api() == old(self).api(),
            final(self).issues() == old(self).issues(),
    {
        let score = self.cached_score(plugin);
        PluginCompatibility {
            compatibility_score_bits: score_bits(score),
            server_version: self.server_version.clone(),
            api_version: self.api_version.clone(),
            known_issues: self.issues_of(plugin.name.as_str()),
            verified: has_trusted_author(&plugin.authors),
        }
    }

    /// The rating word for a score given as a double bit pattern.
    pub fn get_compatibility_rating(&self, score_bits: u64) -> (r: String)
        ensures
            r@ == rating_word(score_bits),
    {
        compatibility_rating(score_bits)
    }

    /// Assesses each of `plugins` in turn (see `analyze_compatibility`).
    pub fn batch_analyze(&mut self, plugins: &[Plugin]) -> (r: Vec<PluginCompatibility>)
        ensures
            r@.len() == plugins@.len(),
            forall|i: int| 0 <= i < plugins@.len() ==> #[trigger] r@[i]@ == assessment(
                cache_after_all(old(self).cache(), old(self).server(), views(plugins@).take(i)),
                old(self).server(), old(self).api(), old(self).issues(), plugins@[i]@),
            final(self).cache() == cache_after_all(old(self).cache(), old(self).server(), views(plugins@)),
            final(self).server() == old(self).server(),
            final(self).api() == old(self).api(),
            final(self).issues() == old(self).issues(),
    {
        let ghost ps = views(plugins@);
        let ghost c0 = self.cache();
        let n = plugins.len();
        let mut r: Vec<PluginCompatibility> = Vec::new();
        let mut i: usize = 0;
        while i < n
            invariant
                n == plugins@.len(),
                ps == views(plugins@),
                i <= n,
                r@.len() == i,
                self.cache() == cache_after_all(c0, old(self).server(), ps.take(i as int)),
                self.server() == old(self).server(),
                self.api() == old(self).api(),
                self.issues() == old(self).issues(),
                forall|j: int| 0 <= j < i ==> #[trigger] r@[j]@ == assessment(
                    cache_after_all(c0, old(self).server(), ps.take(j)), old(self).server(), old(self).api(), old(self).issues(), plugins@[j]@),
            decreases n - i,
        {
            let a = self.analyze_compatibility(&plugins[i]);
            proof {
                assert(ps.take(i + 1).drop_last() =~= ps.take(i as int));
                assert(ps.take(i + 1).last() == plugins@[i as int]@);
            }
            r.push(a);
            i = i + 1;
        }
        proof { assert(ps.take(n as int) =~= ps); }
        r
    }

    /// Copies of the plugins of `all_plugins` in the same category as
    /// `plugin`, with another name, that score higher than it; `plugin` is
    /// assessed first, then the candidates in order, each through the cache.
    pub fn find_compatible_alternatives(&mut self, plugin: &Plugin, all_plugins: &[Plugin]) -> (r: Vec<Plugin>)
        ensures
            views(r@) == alternatives(cache_after(old(self).cache(), old(self).server(), plugin@), old(self).server(), plugin@,
                reported(old(self).cache(), old(self).server(), plugin@), views(all_plugins@)),
            final(self).cache() == alt_cache(cache_after(old(self).cache(), old(self).server(), plugin@), old(self).server(), plugin@,
                views(all_plugins@)),
            final(self).server() == old(self).server(),
            final(self).api() == old(self).api(),
            final(self).issues() == old(self).issues(),
    {
        let ghost server = self.server();
        let bar_score = self.cached_score(plugin);
        let ghost bar = reported(old(self).cache(), server, plugin@);
        let ghost c1 = self.cache();
        let ghost ps = views(all_plugins@);
        let n = all_plugins.len();
        let mut r: Vec<Plugin> = Vec::new();
        let mut i: usize = 0;
        while i < n
            invariant
                n == all_plugins@.len(),
                ps == views(all_plugins@),
                i <= n,
                bar_score == bar,
                self.cache() == alt_cache(c1, server, plugin@, ps.take(i as int)),
                views(r@) == alternatives(c1, server, plugin@, bar, ps.take(i as int)),
                self.server() == server,
                self.api() == old(self).api(),
                self.issues() == old(self).issues(),
            decreases n - i,
        {
            let p = &all_plugins[i];
            proof {
                assert(ps.take(i + 1).drop_last() =~= ps.take(i as int));
                assert(ps.take(i + 1).last() == p@);
            }
            if str_eq(p.category.as_str(), plugin.category.as_str()) && !str_eq(p.name.as_str(), plugin.name.as_str()) {
                let s = self.cached_score(p);
                if s > bar_score {
                    let ghost rv = views(r@);
                    r.push(p.dup());
                    assert(views(r@) =~= rv.push(p@));
                }
            }
            i = i + 1;
        }
        proof { assert(ps.take(n as int) =~= ps); }
        r
    }

    /// Switches to server version `version` and plugin API `api_version`,
    /// forgetting every cached score.
    pub fn update_server_version(&mut self, version: String, api_version: String)
        ensures
            final(self).server() == version@,
            final(self).api() == api_version@,
            final(self).issues() == old(self).issues(),
            final(self).cache() == Map::<Seq<char>, u64>::empty(),
    {
        self.server_version = version;
        self.api_version = api_version;
        self.compatibility_cache.clear();
        assert(self.cache() =~= Map::<Seq<char>, u64>::empty());
    }
}

// ---------------------------------------------------------------------------
// Laws
// ---------------------------------------------------------------------------

/// Every score is a whole multiple of five from 0 to 100, and a plugin that
/// supports exactly the server's version, is no pre-release, targets a
/// current API, is described and well rated scores 100.
pub proof fn law_score_range(server: Seq<char>, p: PluginView)
    ensures
        compat_score(server, p) <= 100,
        compat_score(server, p) % 5 == 0,
        (p.supported_versions == seq![server] && !prerelease(server)
            && old_api_penalty(p.compatibility.api_version) == 0
            && p.description is Some && p.description.unwrap().len() > 0
            && !double_lt(p.stats.average_rating_bits, THREE_BITS)) ==> compat_score(server, p) == 100,
{
    let vs = p.supported_versions;
    let r = raw_score(server, p);
    let m = mismatches(vs, major_minor(server));
    let g = gap_penalty(vs);
    assert(g % 10 == 0 || g == 30) by {
        if vs.len() > 0 {
            assert((10 * prereleases(vs)) % 10 == 0) by (nonlinear_arith);
        }
    }
    assert((20 * m) % 5 == 0) by (nonlinear_arith);
    assert(r % 5 == 0);
    if p.supported_versions == seq![server] && !prerelease(server) {
        assert(vs.drop_last() =~= Seq::<Seq<char>>::empty());
        assert(vs.last() == server);
        assert(vs.contains(server)) by { assert(vs[0] == server); }
        assert(mismatches(vs.drop_last(), major_minor(server)) == 0);
        assert(mismatches(vs, major_minor(server)) == 0);
        assert(prereleases(vs.drop_last()) == 0);
        assert(prereleases(vs) == 0);
    }
}

/// Once a plugin's id is cached, asking again reports the same score,
/// whatever the plugin looks like now.
pub proof fn law_cached_score_sticks(c: Map<Seq<char>, u64>, server: Seq<char>, p: PluginView, q: PluginView)
    requires
        cache_key(p) == cache_key(q),
    ensures
        reported(cache_after(c, server, p), server, q) == reported(c, server, p),
{
}

/// The pre-releases among the supported versions are exactly the versions
/// that mention "alpha" or "beta", in order.
pub proof fn law_prereleases_mention_alpha_or_beta(vs: Seq<Seq<char>>)
    ensures
        prereleases(vs) == vs.filter(|v: Seq<char>| has_substring(v, "alpha"@) || has_substring(v, "beta"@)).len(),
    decreases vs.len(),
{
    reveal(Seq::filter);
    if vs.len() > 0 {
        law_prereleases_mention_alpha_or_beta(vs.drop_last());
    }
}

/// Adding to a plugin that already supports the server's version another
/// supported version of the server's major and minor parts that mentions
/// "alpha" or "beta" lowers its unclamped score by exactly ten; one that
/// mentions neither leaves it unchanged.
pub proof fn law_each_prerelease_costs_ten(server: Seq<char>, p: PluginView, v: Seq<char>)
    requires
        p.supported_versions.contains(server),
        major_minor(v) == major_minor(server),
    ensures
        raw_score(server, PluginView { supported_versions: p.supported_versions.push(v), ..p })
            == raw_score(server, p) - (if has_substring(v, "alpha"@) || has_substring(v, "beta"@) { 10int } else { 0int }),
{
    let vs = p.supported_versions;
    let ws = vs.push(v);
    assert(ws.drop_last() =~= vs);
    assert(ws.last() == v);
    let i = choose|i: int| 0 <= i < vs.len() && vs[i] == server;
    assert(ws[i] == server);
    assert(ws.contains(server));
    assert(vs.len() > 0);
    assert(mismatches(ws, major_minor(server)) == mismatches(vs, major_minor(server)));
    assert(prereleases(ws) == prereleases(vs) + if prerelease(v) { 1nat } else { 0nat });
}

/// The rating of every score that scoring gives (a multiple of five from 0 to
/// 100) goes by its thresholds: 90 and up "Excellent", 75 "Good", 50 "Fair",
/// 25 "Poor", below that "Incompatible".
pub proof fn law_rating_of_scores(s: u64)
    requires
        s <= 100,
        s % 5 == 0,
    ensures
        rating_word(whole_bits(s)) == if s >= 90 { "Excellent"@ } else if s >= 75 { "Good"@ } else if s >= 50 {
            "Fair"@ } else if s >= 25 { "Poor"@ } else { "Incompatible"@ },
{
}

} // verus!
