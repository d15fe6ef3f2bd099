//! What a plugin's jar file name says about it: the version written in the
//! name, the plugin name left when the extension and version are taken out,
//! and whether a file belongs to a plugin of a given name.
use vstd::prelude::*;
use crate::text::{chars_of, string_from_chars, owned, replace_all, replace_exec, lowercase, to_lowercase, has_substring, has_substring_exec};
use crate::security::totp::is_digit;
use crate::text::concat;
use crate::plugins::rollback::{join, join_path};
use crate::checksum::{checksum_of, lower_hex, sha256_digest};

verus! {

/// Where a run of decimal digits starting at `i` ends in `s`. Only the ASCII
/// digits '0' to '9' count: decimal digits of other scripts (such as '٣' or
/// '३') end a run, so a version written with them is not recognised.
pub open spec fn digits_end(s: Seq<char>, i: int) -> int
    decreases s.len() - i,
{
    if 0 <= i < s.len() && is_digit(s[i]) { digits_end(s, i + 1) } else { i }
}

/// Where a version of three dot-separated digit runs ("1.20.4") written at `i`
/// in `s` ends, if one is written there (each run taken as long as it goes).
pub open spec fn version_end(s: Seq<char>, i: int) -> Option<int> {
    let a = digits_end(s, i);
    if a > i && a < s.len() && s[a] == '.' {
        let b = digits_end(s, a + 1);
        if b > a + 1 && b < s.len() && s[b] == '.' {
            let c = digits_end(s, b + 1);
            if c > b + 1 { Some(c) } else { None }
        } else {
            None
        }
    } else {
        None
    }
}

/// How a version is marked in a file name.
#[derive(Clone, Copy, PartialEq, Eq, Structural, Debug)]
pub enum VersionMark {
    /// A version, with or without a leading "v".
    Plain,
    /// A version after a hyphen.
    Dash,
    /// A version after an underscore.
    Underscore,
}

/// A version marked as `kind` starting at `j` in `s`: where its digits start
/// and where it ends.
pub open spec fn match_at(s: Seq<char>, j: int, kind: VersionMark) -> Option<(int, int)> {
    match kind {
        VersionMark::Plain => if 0 <= j < s.len() && s[j] == 'v' && version_end(s, j + 1) is Some {
            Some((j + 1, version_end(s, j + 1).unwrap()))
        } else {
            match version_end(s, j) {
                Some(e) => Some((j, e)),
                None => None,
            }
        },
        VersionMark::Dash => if 0 <= j < s.len() && s[j] == '-' {
            match version_end(s, j + 1) {
                Some(e) => Some((j + 1, e)),
                None => None,
            }
        } else {
            None
        },
        VersionMark::Underscore => if 0 <= j < s.len() && s[j] == '_' {
            match version_end(s, j + 1) {
                Some(e) => Some((j + 1, e)),
                None => None,
            }
        } else {
            None
        },
    }
}

/// The leftmost version marked as `kind` at or after `k` in `s`: where the
/// match starts, where its digits start, and where it ends.
pub open spec fn first_match(s: Seq<char>, k: int, kind: VersionMark) -> Option<(int, int, int)>
    decreases s.len() - k,
{
    if k < 0 || k >= s.len() {
        None
    } else {
        match match_at(s, k, kind) {
            Some((c, e)) => Some((k, c, e)),
            None => first_match(s, k + 1, kind),
        }
    }
}

/// The version a file name gives: the leftmost version in it (without a
/// leading "v"), or "1.0.0" when there is none.
pub open spec fn version_of_name(f: Seq<char>) -> Seq<char> {
    match first_match(f, 0, VersionMark::Plain) {
        Some((_, c, e)) => f.subrange(c, e),
        None => "1.0.0"@,
    }
}

/// `s` without its leftmost version marked as `kind` (mark included).
pub open spec fn without_first(s: Seq<char>, kind: VersionMark) -> Seq<char> {
    match first_match(s, 0, kind) {
        Some((st, _, e)) => s.subrange(0, st) + s.subrange(e, s.len() as int),
        None => s,
    }
}

/// A character trimmed off the ends of a plugin name.
pub open spec fn is_trimmed(c: char) -> bool {
    c == '-' || c == '_' || c == ' '
}

/// Where the trimmed characters at the front of `s` (from `i` on) end.
pub open spec fn lead_end(s: Seq<char>, i: int) -> int
    decreases s.len() - i,
{
    if 0 <= i < s.len() && is_trimmed(s[i]) { lead_end(s, i + 1) } else { i }
}

/// Where the trimmed characters at the back of `s` (before `j`) begin.
pub open spec fn trail_start(s: Seq<char>, j: int) -> int
    decreases j,
{
    if 0 < j <= s.len() && is_trimmed(s[j - 1]) { trail_start(s, j - 1) } else { j }
}

/// `s` without hyphens, underscores and spaces at either end.
pub open spec fn trimmed(s: Seq<char>) -> Seq<char> {
    let a = lead_end(s, 0);
    let b = trail_start(s, s.len() as int);
    if b <= a { seq![] } else { s.subrange(a, b) }
}

/// The plugin name a file name gives: without ".jar" and ".JAR", without the
/// leftmost plain version, then the leftmost hyphen version, then the leftmost
/// underscore version, and trimmed.
pub open spec fn name_of_file(f: Seq<char>) -> Seq<char> {
    trimmed(without_first(without_first(without_first(
        replace_all(replace_all(f, ".jar"@, seq![]), ".JAR"@, seq![]), VersionMark::Plain), VersionMark::Dash), VersionMark::Underscore))
}

fn digits_end_exec(s: &Vec<char>, i: usize) -> (r: usize)
    requires
        i <= s@.len(),
    ensures
        r == digits_end(s@, i as int),
        i <= r <= s@.len(),
{
    let n = s.len();
    let mut k = i;
    while k < n && '0' <= s[k] && s[k] <= '9'
        invariant
            n == s@.len(),
            i <= k <= n,
            digits_end(s@, i as int) == digits_end(s@, k as int),
        decreases n - k,
    {
        k = k + 1;
    }
    k
}

fn version_end_exec(s: &Vec<char>, i: usize) -> (r: Option<usize>)
    requires
        i <= s@.len(),
    ensures
        match r {
            Some(e) => version_end(s@, i as int) == Some(e as int) && e <= s@.len(),
            None => version_end(s@, i as int) is None,
        },
{
    let n = s.len();
    let a = digits_end_exec(s, i);
    if !(a > i && a < n && s[a] == '.') {
        return None;
    }
    let b = digits_end_exec(s, a + 1);
    if !(b > a + 1 && b < n && s[b] == '.') {
        return None;
    }
    let c = digits_end_exec(s, b + 1);
    if c > b + 1 { Some(c) } else { None }
}

fn match_at_exec(s: &Vec<char>, j: usize, kind: VersionMark) -> (r: Option<(usize, usize)>)
    requires
        j < s@.len(),
    ensures
        match r {
            Some((c, e)) => match_at(s@, j as int, kind) == Some((c as int, e as int)) && j <= c <= e <= s@.len(),
            None => match_at(s@, j as int, kind) is None,
        },
{
    let n = s.len();
    assert(j + 1 <= n);
    match kind {
        VersionMark::Plain => {
            if s[j] == 'v' {
                if let Some(e) = version_end_exec(s, j + 1) {
                    return Some((j + 1, e));
                }
            }
            match version_end_exec(s, j) {
                Some(e) => Some((j, e)),
                None => None,
            }
        }
        VersionMark::Dash => {
            if s[j] != '-' {
                return None;
            }
            match version_end_exec(s, j + 1) {
                Some(e) => Some((j + 1, e)),
                None => None,
            }
        }
        VersionMark::Underscore => {
            if s[j] != '_' {
                return None;
            }
            match version_end_exec(s, j + 1) {
                Some(e) => Some((j + 1, e)),
                None => None,
            }
        }
    }
}

fn first_match_exec(s: &Vec<char>, kind: VersionMark) -> (r: Option<(usize, usize, usize)>)
    ensures
        match r {
            Some((st, c, e)) => first_match(s@, 0, kind) == Some((st as int, c as int, e as int)) && st <= c && c <= e <= s@.len(),
            None => first_match(s@, 0, kind) is None,
        },
{
    let n = s.len();
    let mut k: usize = 0;
    while k < n
        invariant
            n == s@.len(),
            k <= n,
            first_match(s@, 0, kind) == first_match(s@, k as int, kind),
        decreases n - k,
    {
        match match_at_exec(s, k, kind) {
            Some((c, e)) => {
                return Some((k, c, e));
            }
            None => {}
        }
        k = k + 1;
    }
    None
}

fn slice(s: &Vec<char>, a: usize, b: usize) -> (r: Vec<char>)
    requires
        a <= b <= s@.len(),
    ensures
        r@ == s@.subrange(a as int, b as int),
{
    let mut r: Vec<char> = Vec::new();
    let mut i = a;
    while i < b
        invariant
            a <= i <= b,
            b <= s@.len(),
            r@ == s@.subrange(a as int, i as int),
        decreases b - i,
    {
        r.push(s[i]);
        i = i + 1;
        assert(r@ =~= s@.subrange(a as int, i as int));
    }
    r
}

fn without_first_exec(s: &Vec<char>, kind: VersionMark) -> (r: Vec<char>)
    ensures
        r@ == without_first(s@, kind),
{
    match first_match_exec(s, kind) {
        Some((st, _c, e)) => {
            let mut a = slice(s, 0, st);
            let b = slice(s, e, s.len());
            let ghost av = a@;
            let mut i: usize = 0;
            while i < b.len()
                invariant
                    i <= b@.len(),
                    a@ == av + b@.subrange(0, i as int),
                decreases b@.len() - i,
            {
                a.push(b[i]);
                i = i + 1;
                assert(a@ =~= av + b@.subrange(0, i as int));
            }
            assert(b@.subrange(0, b@.len() as int) =~= b@);
            a
        }
        None => slice(s, 0, s.len()),
    }
}

fn trimmed_exec(s: &Vec<char>) -> (r: Vec<char>)
    ensures
        r@ == trimmed(s@),
{
    let n = s.len();
    let mut a: usize = 0;
    while a < n && (s[a] == '-' || s[a] == '_' || s[a] == ' ')
        invariant
            n == s@.len(),
            a <= n,
            lead_end(s@, 0) == lead_end(s@, a as int),
        decreases n - a,
    {
        a = a + 1;
    }
    let mut b: usize = n;
    while b > 0 && (s[b - 1] == '-' || s[b - 1] == '_' || s[b - 1] == ' ')
        invariant
            n == s@.len(),
            b <= n,
            trail_start(s@, n as int) == trail_start(s@, b as int),
        decreases b,
    {
        b = b - 1;
    }
    if b <= a {
        let r: Vec<char> = Vec::new();
        assert(r@ =~= Seq::<char>::empty());
        r
    } else {
        slice(s, a, b)
    }
}

/// The version written in a plugin's file name (see `version_of_name`).
pub fn extract_version_from_filename(filename: &str) -> (v: String)
    ensures
        v@ == version_of_name(filename@),
{
    let f = chars_of(filename);
    match first_match_exec(&f, VersionMark::Plain) {
        Some((_st, c, e)) => string_from_chars(&slice(&f, c, e)),
        None => owned("1.0.0"),
    }
}

/// The plugin name a file name gives (see `name_of_file`).
pub fn extract_name_from_filename(filename: &str) -> (n: String)
    ensures
        n@ == name_of_file(filename@),
{
    let f = chars_of(filename);
    let jar_lower = chars_of(".jar");
    let jar_upper = chars_of(".JAR");
    let empty: Vec<char> = Vec::new();
    proof {
        reveal_strlit(".jar");
        reveal_strlit(".JAR");
        assert(empty@ =~= Seq::<char>::empty());
    }
    let a = replace_exec(&f, &jar_lower, &empty);
    let b = replace_exec(&a, &jar_upper, &empty);
    let c = without_first_exec(&b, VersionMark::Plain);
    let d = without_first_exec(&c, VersionMark::Dash);
    let e = without_first_exec(&d, VersionMark::Underscore);
    string_from_chars(&trimmed_exec(&e))
}

/// A file of name `file_name` belongs to the plugin `name`: the lower-case
/// file name holds the lower-case plugin name.
pub open spec fn file_of_plugin(file_name: Seq<char>, name: Seq<char>) -> bool {
    has_substring(lowercase(file_name), lowercase(name))
}

/// Whether the file `file_name` belongs to the plugin `name` (see `file_of_plugin`).
pub fn file_matches_plugin(file_name: &str, name: &str) -> (b: bool)
    ensures
        b == file_of_plugin(file_name@, name@),
{
    let f = to_lowercase(file_name);
    let n = to_lowercase(name);
    has_substring_exec(f.as_str(), n.as_str())
}

/// Where plugins are installed, backed up and downloaded to.
pub struct PluginInstaller {
    plugins_dir: String,
    backups_dir: String,
    cache_dir: String,
}

impl PluginInstaller {
    /// The directory of the plugins.
    pub closed spec fn plugins(&self) -> Seq<char> {
        self.plugins_dir@
    }

    /// The directory of the backups.
    pub closed spec fn backups(&self) -> Seq<char> {
        self.backups_dir@
    }

    /// The directory downloads are cached in.
    pub closed spec fn cache(&self) -> Seq<char> {
        self.cache_dir@
    }

    /// An installer for plugins in `plugins_dir`, with its "backups" and
    /// "cache" subdirectories.
    pub fn new(plugins_dir: String) -> (p: PluginInstaller)
        ensures
            p.plugins() == plugins_dir@,
            p.backups() == join_path(plugins_dir@, "backups"@),
            p.cache() == join_path(plugins_dir@, "cache"@),
    {
        let backups_dir = join(plugins_dir.as_str(), "backups");
        let cache_dir = join(plugins_dir.as_str(), "cache");
        PluginInstaller { plugins_dir, backups_dir, cache_dir }
    }

    /// The directory of the plugins.
    pub fn plugins_dir(&self) -> (d: &str)
        ensures
            d@ == self.plugins(),
    {
        self.plugins_dir.as_str()
    }

    /// The directory of the backups.
    pub fn backups_dir(&self) -> (d: &str)
        ensures
            d@ == self.backups(),
    {
        self.backups_dir.as_str()
    }

    /// Where the download of `name` at `version` is cached: "name-version.jar"
    /// in the cache directory.
    pub fn cache_path(&self, name: &str, version: &str) -> (p: String)
        ensures
            p@ == join_path(self.cache(), name@ + seq!['-'] + version@ + ".jar"@),
    {
        let a = concat(name, "-");
        let b = concat(a.as_str(), version);
        let c = concat(b.as_str(), ".jar");
        proof { reveal_strlit("-"); }
        assert(c@ =~= name@ + seq!['-'] + version@ + ".jar"@);
        join(self.cache_dir.as_str(), c.as_str())
    }

    /// The checksum of a plugin file's contents: its SHA-256 digest in
    /// lower-case hexadecimal.
    pub fn calculate_checksum(&self, contents: &[u8]) -> (r: String)
        ensures
            r@ == lower_hex(sha256_digest(contents@)),
    {
        checksum_of(contents)
    }
}

} // verus!
