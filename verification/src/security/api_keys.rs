//! API keys: creation with a random secret, lookup by a hash of the secret,
//! permissions, IP restrictions, expiry and usage counters. Times are
//! milliseconds on one clock.
use vstd::prelude::*;
use vstd::wrapping::u64_specs;
use crate::keyed::{Keyed, Store, unique_keys, has_key, CountEntry, bump_count};
use crate::text::{owned, str_eq, chars_of, string_from_chars, opt_view, strings_view, copy_opt_string, copy_strings, copy_vec};
use crate::ids::{new_uuid_string, is_hyphenated_uuid, is_lower_hex};
use crate::clock::now_millis_unsigned;

verus! {

/// What a key may do.
#[derive(Clone, Copy, PartialEq, Eq, Structural, Debug, Hash)]
pub enum ApiPermission {
    All,
    Read,
    Write,
    Admin,
    ServerStart,
    ServerStop,
    ServerRestart,
    ServerCommand,
    FileRead,
    FileWrite,
    FileDelete,
    ConfigRead,
    ConfigWrite,
    MetricsRead,
    LogsRead,
    RconConnect,
    RconCommand,
    UsersRead,
    UsersWrite,
    SessionsRead,
    SessionsWrite,
    SecurityRead,
    SecurityWrite,
    AuditRead,
    ApiKeysRead,
    ApiKeysWrite,
}

/// The display group of a permission.
pub open spec fn category_name(p: ApiPermission) -> Seq<char> {
    match p {
        ApiPermission::All | ApiPermission::Admin => "管理员"@,
        ApiPermission::Read | ApiPermission::Write => "基础"@,
        ApiPermission::ServerStart | ApiPermission::ServerStop | ApiPermission::ServerRestart => "服务器"@,
        ApiPermission::ServerCommand | ApiPermission::RconCommand => "命令"@,
        ApiPermission::FileRead | ApiPermission::FileWrite | ApiPermission::FileDelete => "文件"@,
        ApiPermission::ConfigRead | ApiPermission::ConfigWrite => "配置"@,
        ApiPermission::MetricsRead => "监控"@,
        ApiPermission::LogsRead => "日志"@,
        ApiPermission::RconConnect => "RCON"@,
        ApiPermission::UsersRead | ApiPermission::UsersWrite => "用户"@,
        ApiPermission::SessionsRead | ApiPermission::SessionsWrite => "会话"@,
        ApiPermission::SecurityRead | ApiPermission::SecurityWrite => "安全"@,
        ApiPermission::AuditRead => "审计"@,
        ApiPermission::ApiKeysRead | ApiPermission::ApiKeysWrite => "API密钥"@,
    }
}

/// The variant name of a permission.
pub open spec fn permission_name(p: ApiPermission) -> Seq<char> {
    match p {
        ApiPermission::All => "All"@,
        ApiPermission::Read => "Read"@,
        ApiPermission::Write => "Write"@,
        ApiPermission::Admin => "Admin"@,
        ApiPermission::ServerStart => "ServerStart"@,
        ApiPermission::ServerStop => "ServerStop"@,
        ApiPermission::ServerRestart => "ServerRestart"@,
        ApiPermission::ServerCommand => "ServerCommand"@,
        ApiPermission::FileRead => "FileRead"@,
        ApiPermission::FileWrite => "FileWrite"@,
        ApiPermission::FileDelete => "FileDelete"@,
        ApiPermission::ConfigRead => "ConfigRead"@,
        ApiPermission::ConfigWrite => "ConfigWrite"@,
        ApiPermission::MetricsRead => "MetricsRead"@,
        ApiPermission::LogsRead => "LogsRead"@,
        ApiPermission::RconConnect => "RconConnect"@,
        ApiPermission::RconCommand => "RconCommand"@,
        ApiPermission::UsersRead => "UsersRead"@,
        ApiPermission::UsersWrite => "UsersWrite"@,
        ApiPermission::SessionsRead => "SessionsRead"@,
        ApiPermission::SessionsWrite => "SessionsWrite"@,
        ApiPermission::SecurityRead => "SecurityRead"@,
        ApiPermission::SecurityWrite => "SecurityWrite"@,
        ApiPermission::AuditRead => "AuditRead"@,
        ApiPermission::ApiKeysRead => "ApiKeysRead"@,
        ApiPermission::ApiKeysWrite => "ApiKeysWrite"@,
    }
}

impl ApiPermission {
    /// The display group of the permission.
    pub fn category(&self) -> (s: &'static str)
        ensures
            s@ == category_name(*self),
    {
        match self {
            ApiPermission::All | ApiPermission::Admin => "管理员",
            ApiPermission::Read | ApiPermission::Write => "基础",
            ApiPermission::ServerStart | ApiPermission::ServerStop | ApiPermission::ServerRestart => "服务器",
            ApiPermission::ServerCommand | ApiPermission::RconCommand => "命令",
            ApiPermission::FileRead | ApiPermission::FileWrite | ApiPermission::FileDelete => "文件",
            ApiPermission::ConfigRead | ApiPermission::ConfigWrite => "配置",
            ApiPermission::MetricsRead => "监控",
            ApiPermission::LogsRead => "日志",
            ApiPermission::RconConnect => "RCON",
            ApiPermission::UsersRead | ApiPermission::UsersWrite => "用户",
            ApiPermission::SessionsRead | ApiPermission::SessionsWrite => "会话",
            ApiPermission::SecurityRead | ApiPermission::SecurityWrite => "安全",
            ApiPermission::AuditRead => "审计",
            ApiPermission::ApiKeysRead | ApiPermission::ApiKeysWrite => "API密钥",
        }
    }

    /// The variant name of the permission, as its debug form prints it.
    pub fn name(&self) -> (s: &'static str)
        ensures
            s@ == permission_name(*self),
    {
        match self {
            ApiPermission::All => "All",
            ApiPermission::Read => "Read",
            ApiPermission::Write => "Write",
            ApiPermission::Admin => "Admin",
            ApiPermission::ServerStart => "ServerStart",
            ApiPermission::ServerStop => "ServerStop",
            ApiPermission::ServerRestart => "ServerRestart",
            ApiPermission::ServerCommand => "ServerCommand",
            ApiPermission::FileRead => "FileRead",
            ApiPermission::FileWrite => "FileWrite",
            ApiPermission::FileDelete => "FileDelete",
            ApiPermission::ConfigRead => "ConfigRead",
            ApiPermission::ConfigWrite => "ConfigWrite",
            ApiPermission::MetricsRead => "MetricsRead",
            ApiPermission::LogsRead => "LogsRead",
            ApiPermission::RconConnect => "RconConnect",
            ApiPermission::RconCommand => "RconCommand",
            ApiPermission::UsersRead => "UsersRead",
            ApiPermission::UsersWrite => "UsersWrite",
            ApiPermission::SessionsRead => "SessionsRead",
            ApiPermission::SessionsWrite => "SessionsWrite",
            ApiPermission::SecurityRead => "SecurityRead",
            ApiPermission::SecurityWrite => "SecurityWrite",
            ApiPermission::AuditRead => "AuditRead",
            ApiPermission::ApiKeysRead => "ApiKeysRead",
            ApiPermission::ApiKeysWrite => "ApiKeysWrite",
        }
    }
}

/// Per-key request limits.
#[derive(Clone, Copy, PartialEq, Eq, Structural, Debug)]
pub struct RateLimitConfig {
    pub requests_per_minute: u32,
    pub requests_per_hour: u32,
    pub burst_size: u32,
}

impl RateLimitConfig {
    /// 60 per minute, 1000 per hour, bursts of 10.
    pub open spec fn default_spec() -> RateLimitConfig {
        RateLimitConfig { requests_per_minute: 60, requests_per_hour: 1000, burst_size: 10 }
    }
}

impl Default for RateLimitConfig {
    fn default() -> (c: RateLimitConfig)
        ensures
            c == RateLimitConfig::default_spec(),
    {
        RateLimitConfig { requests_per_minute: 60, requests_per_hour: 1000, burst_size: 10 }
    }
}

// ---------------------------------------------------------------------------
// Key text and its hash
// ---------------------------------------------------------------------------

/// The characters of `s` other than `-`, in order.
pub open spec fn without_hyphens(s: Seq<char>) -> Seq<char>
    decreases s.len(),
{
    if s.len() == 0 {
        seq![]
    } else if s.last() == '-' {
        without_hyphens(s.drop_last())
    } else {
        without_hyphens(s.drop_last()).push(s.last())
    }
}

/// A raw key as handed out: 48 lower-case hexadecimal digits.
pub open spec fn is_raw_key_form(s: Seq<char>) -> bool {
    &&& s.len() == 48
    &&& forall|i: int| 0 <= i < 48 ==> #[trigger] is_lower_hex(s[i])
}

fn strip_hyphens(s: &str) -> (r: Vec<char>)
    ensures
        r@ == without_hyphens(s@),
        is_hyphenated_uuid(s@) ==> r@.len() == 32 && forall|i: int| 0 <= i < 32 ==> #[trigger] is_lower_hex(r@[i]),
{
    let chars = chars_of(s);
    let ghost t = s@;
    let n = chars.len();
    let mut out: Vec<char> = Vec::new();
    let mut i: usize = 0;
    while i < n
        invariant
            chars@ == t,
            n == t.len(),
            i <= n,
            out@ == without_hyphens(t.subrange(0, i as int)),
            is_hyphenated_uuid(t) ==> out@.len() == i - (if i > 8 { 1int } else { 0 }) - (if i > 13 { 1int } else { 0 })
                - (if i > 18 { 1int } else { 0 }) - (if i > 23 { 1int } else { 0 }),
            is_hyphenated_uuid(t) ==> forall|j: int| 0 <= j < out@.len() ==> #[trigger] is_lower_hex(out@[j]),
        decreases n - i,
    {
        proof {
            assert(t.subrange(0, i + 1).drop_last() =~= t.subrange(0, i as int));
            if is_hyphenated_uuid(t) {
                assert(i == 8 || i == 13 || i == 18 || i == 23 ==> t[i as int] == '-');
                assert(!(i == 8 || i == 13 || i == 18 || i == 23) ==> is_lower_hex(t[i as int]));
            }
        }
        if chars[i] != '-' {
            out.push(chars[i]);
        }
        i = i + 1;
    }
    proof { assert(t.subrange(0, n as int) =~= t); }
    out
}

/// A fresh random key: the 32 digits of one random identifier followed by the
/// first 16 digits of another.
pub fn generate_key() -> (k: String)
    ensures
        is_raw_key_form(k@),
{
    let a = new_uuid_string();
    let b = new_uuid_string();
    let mut digits = strip_hyphens(a.as_str());
    let tail = strip_hyphens(b.as_str());
    let mut i: usize = 0;
    while i < 16
        invariant
            i <= 16,
            tail@.len() == 32,
            forall|j: int| 0 <= j < 32 ==> #[trigger] is_lower_hex(tail@[j]),
            digits@.len() == 32 + i,
            forall|j: int| 0 <= j < digits@.len() ==> #[trigger] is_lower_hex(digits@[j]),
        decreases 16 - i,
    {
        digits.push(tail[i]);
        i = i + 1;
    }
    string_from_chars(&digits)
}

/// The wrapping fold `acc * 31 + code` over the characters of `s`.
pub open spec fn key_fold(s: Seq<char>) -> u64
    decreases s.len(),
{
    if s.len() == 0 {
        0
    } else {
        u64_specs::wrapping_add(u64_specs::wrapping_mul(key_fold(s.drop_last()), 31), s.last() as u64)
    }
}

/// A lower-case hexadecimal digit for `d` (0..=15).
pub open spec fn hex_char(d: nat) -> char {
    if d < 10 { (d + 48) as char } else { (d + 87) as char }
}

/// The last `n` hexadecimal digits of `v`, most significant first.
pub open spec fn hex_fixed(v: nat, n: nat) -> Seq<char>
    decreases n,
{
    if n == 0 { seq![] } else { hex_fixed(v / 16, (n - 1) as nat).push(hex_char(v % 16)) }
}

/// The stored hash of a raw key: its fold as 16 hexadecimal digits.
pub open spec fn key_hash_text(s: Seq<char>) -> Seq<char> {
    hex_fixed(key_fold(s) as nat, 16)
}

fn push_hex_fixed(v: u64, n: usize, out: &mut Vec<char>)
    ensures
        final(out)@ == old(out)@ + hex_fixed(v as nat, n as nat),
    decreases n,
{
    if n == 0 {
        assert(old(out)@ + hex_fixed(v as nat, 0) =~= old(out)@);
        return;
    }
    push_hex_fixed(v / 16, n - 1, out);
    let d = v % 16;
    let c = if d < 10 { ((d + 48) as u8) as char } else { ((d + 87) as u8) as char };
    out.push(c);
    assert(out@ =~= old(out)@ + hex_fixed(v as nat, n as nat));
}

/// The hash under which a raw key is stored.
pub fn hash_key(key: &str) -> (h: String)
    ensures
        h@ == key_hash_text(key@),
{
    let chars = chars_of(key);
    let n = chars.len();
    let mut acc: u64 = 0;
    let mut i: usize = 0;
    while i < n
        invariant
            chars@ == key@,
            n == chars@.len(),
            i <= n,
            acc == key_fold(chars@.subrange(0, i as int)),
        decreases n - i,
    {
        proof { assert(chars@.subrange(0, i + 1).drop_last() =~= chars@.subrange(0, i as int)); }
        acc = acc.wrapping_mul(31).wrapping_add(chars[i] as u64);
        i = i + 1;
    }
    proof { assert(chars@.subrange(0, n as int) =~= chars@); }
    let mut out: Vec<char> = Vec::new();
    push_hex_fixed(acc, 16, &mut out);
    assert(out@ =~= key_hash_text(key@));
    string_from_chars(&out)
}

// ---------------------------------------------------------------------------
// Keys
// ---------------------------------------------------------------------------

/// An API key; the raw secret itself is not kept, only its hash and prefix.
pub struct ApiKey {
    pub id: String,
    pub name: String,
    pub key_hash: String,
    pub key_prefix: String,
    pub user_id: Option<String>,
    pub permissions: Vec<ApiPermission>,
    pub rate_limit: RateLimitConfig,
    pub created_at: u64,
    pub last_used: Option<u64>,
    pub expires_at: Option<u64>,
    pub is_active: bool,
    pub description: Option<String>,
    pub allowed_ips: Vec<String>,
}

/// The plain content of a key.
pub struct ApiKeyView {
    pub id: Seq<char>,
    pub name: Seq<char>,
    pub key_hash: Seq<char>,
    pub key_prefix: Seq<char>,
    pub user_id: Option<Seq<char>>,
    pub permissions: Seq<ApiPermission>,
    pub rate_limit: RateLimitConfig,
    pub created_at: u64,
    pub last_used: Option<u64>,
    pub expires_at: Option<u64>,
    pub is_active: bool,
    pub description: Option<Seq<char>>,
    pub allowed_ips: Seq<Seq<char>>,
}

impl View for ApiKey {
    type V = ApiKeyView;

    open spec fn view(&self) -> ApiKeyView {
        ApiKeyView {
            id: self.id@,
            name: self.name@,
            key_hash: self.key_hash@,
            key_prefix: self.key_prefix@,
            user_id: opt_view(self.user_id),
            permissions: self.permissions@,
            rate_limit: self.rate_limit,
            created_at: self.created_at,
            last_used: self.last_used,
            expires_at: self.expires_at,
            is_active: self.is_active,
            description: opt_view(self.description),
            allowed_ips: strings_view(self.allowed_ips@),
        }
    }
}

impl Keyed for ApiKey {
    open spec fn key_view(&self) -> Seq<char> {
        self.id@
    }

    fn key_str(&self) -> (r: &str) {
        self.id.as_str()
    }
}

/// Whether a key has expired at `now` (strictly after its expiry time).
pub open spec fn key_expired(k: ApiKeyView, now: u64) -> bool {
    match k.expires_at {
        Some(t) => now > t,
        None => false,
    }
}

/// Whether a key grants `p`: it lists `p` or `All`.
pub open spec fn grants(k: ApiKeyView, p: ApiPermission) -> bool {
    k.permissions.contains(p) || k.permissions.contains(ApiPermission::All)
}

fn contains_permission(v: &Vec<ApiPermission>, p: ApiPermission) -> (b: bool)
    ensures
        b == v@.contains(p),
{
    let n = v.len();
    let mut i: usize = 0;
    while i < n
        invariant
            n == v@.len(),
            i <= n,
            forall|j: int| 0 <= j < i ==> v@[j] != p,
        decreases n - i,
    {
        if v[i] == p {
            return true;
        }
        i = i + 1;
    }
    false
}

impl ApiKey {
    /// A new active key named `name` with `permissions`, and its raw secret: the
    /// secret is 48 hexadecimal digits, the key keeps its first eight as prefix and
    /// its hash; the default rate limit, no owner, no expiry, created now.
    pub fn new(name: String, permissions: Vec<ApiPermission>) -> (r: (ApiKey, String))
        ensures
            is_raw_key_form(r.1@),
            is_hyphenated_uuid(r.0@.id),
            r.0@.name == name@,
            r.0@.key_hash == key_hash_text(r.1@),
            r.0@.key_prefix == r.1@.subrange(0, 8),
            r.0@.user_id is None,
            r.0@.permissions == permissions@,
            r.0@.rate_limit == RateLimitConfig::default_spec(),
            r.0@.last_used is None,
            r.0@.expires_at is None,
            r.0@.is_active,
            r.0@.description is None,
            r.0@.allowed_ips == Seq::<Seq<char>>::empty(),
    {
        let raw = generate_key();
        let chars = chars_of(raw.as_str());
        let mut prefix: Vec<char> = Vec::new();
        let mut i: usize = 0;
        while i < 8
            invariant
                chars@ == raw@,
                chars@.len() == 48,
                i <= 8,
                prefix@ == chars@.subrange(0, i as int),
            decreases 8 - i,
        {
            prefix.push(chars[i]);
            i = i + 1;
            assert(prefix@ =~= chars@.subrange(0, i as int));
        }
        let key_prefix = string_from_chars(&prefix);
        let key_hash = hash_key(raw.as_str());
        let now = now_millis_unsigned();
        let key = ApiKey {
            id: new_uuid_string(),
            name,
            key_hash,
            key_prefix,
            user_id: None,
            permissions,
            rate_limit: RateLimitConfig { requests_per_minute: 60, requests_per_hour: 1000, burst_size: 10 },
            created_at: now,
            last_used: None,
            expires_at: None,
            is_active: true,
            description: None,
            allowed_ips: Vec::new(),
        };
        assert(strings_view(key.allowed_ips@) =~= Seq::<Seq<char>>::empty());
        (key, raw)
    }

    /// Whether the key has expired at `now`.
    pub fn is_expired(&self, now: u64) -> (b: bool)
        ensures
            b == key_expired(self@, now),
    {
        match self.expires_at {
            Some(t) => now > t,
            None => false,
        }
    }

    /// Whether the key is active and not expired at `now`.
    pub fn is_valid(&self, now: u64) -> (b: bool)
        ensures
            b == (self.is_active && !key_expired(self@, now)),
    {
        self.is_active && !self.is_expired(now)
    }

    /// Whether the key grants `permission`.
    pub fn has_permission(&self, permission: &ApiPermission) -> (b: bool)
        ensures
            b == grants(self@, *permission),
    {
        contains_permission(&self.permissions, *permission) || contains_permission(&self.permissions, ApiPermission::All)
    }

    /// A field-by-field copy.
    pub fn duplicate(&self) -> (r: ApiKey)
        ensures
            r@ == self@,
    {
        ApiKey {
            id: self.id.clone(),
            name: self.name.clone(),
            key_hash: self.key_hash.clone(),
            key_prefix: self.key_prefix.clone(),
            user_id: copy_opt_string(&self.user_id),
            permissions: copy_vec(&self.permissions),
            rate_limit: self.rate_limit,
            created_at: self.created_at,
            last_used: self.last_used,
            expires_at: self.expires_at,
            is_active: self.is_active,
            description: copy_opt_string(&self.description),
            allowed_ips: copy_strings(&self.allowed_ips),
        }
    }
}

// ---------------------------------------------------------------------------
// The manager
// ---------------------------------------------------------------------------

/// Request counters of one key.
#[derive(Clone, Copy, PartialEq, Eq, Structural, Debug)]
pub struct ApiUsageStats {
    pub total_requests: u64,
    pub last_used: u64,
    pub requests_today: u32,
    pub requests_this_hour: u32,
}

impl ApiUsageStats {
    /// All counters zero, last use at time zero.
    pub open spec fn zero() -> ApiUsageStats {
        ApiUsageStats { total_requests: 0, last_used: 0, requests_today: 0, requests_this_hour: 0 }
    }
}

impl Default for ApiUsageStats {
    fn default() -> (s: ApiUsageStats)
        ensures
            s == ApiUsageStats::zero(),
    {
        ApiUsageStats { total_requests: 0, last_used: 0, requests_today: 0, requests_this_hour: 0 }
    }
}

/// The counters after one more request at `now`.
pub open spec fn recorded(s: ApiUsageStats, now: u64) -> ApiUsageStats {
    ApiUsageStats { total_requests: s.total_requests.saturating_add(1), last_used: now, ..s }
}

/// The key stored under a hash.
pub struct HashEntry {
    pub hash: String,
    pub key_id: String,
}

impl Keyed for HashEntry {
    open spec fn key_view(&self) -> Seq<char> {
        self.hash@
    }

    fn key_str(&self) -> (r: &str) {
        self.hash.as_str()
    }
}

/// The counters of one key.
pub struct UsageEntry {
    pub key_id: String,
    pub stats: ApiUsageStats,
}

impl Keyed for UsageEntry {
    open spec fn key_view(&self) -> Seq<char> {
        self.key_id@
    }

    fn key_str(&self) -> (r: &str) {
        self.key_id.as_str()
    }
}

/// The answer to presenting a raw key.
pub enum ApiKeyValidationResult {
    Valid { key: ApiKey },
    Invalid { reason: String },
    Expired { key_id: String },
}

impl ApiKeyValidationResult {
    /// Whether the key was accepted.
    pub fn is_valid(&self) -> (b: bool)
        ensures
            b == (*self is Valid),
    {
        match self {
            ApiKeyValidationResult::Valid { .. } => true,
            _ => false,
        }
    }

    /// A copy of the accepted key, if any.
    pub fn get_key(&self) -> (r: Option<ApiKey>)
        ensures
            match *self {
                ApiKeyValidationResult::Valid { key } => r matches Some(k) && k@ == key@,
                _ => r is None,
            },
    {
        match self {
            ApiKeyValidationResult::Valid { key } => Some(key.duplicate()),
            _ => None,
        }
    }
}

/// Key counts and how often each permission is granted.
pub struct ApiKeyStats {
    pub total_keys: usize,
    pub active_keys: usize,
    pub expired_keys: usize,
    pub permission_distribution: Vec<CountEntry>,
}

/// The permissions of all keys of `s`, key after key.
pub open spec fn all_permissions(s: Seq<ApiKeyView>) -> Seq<ApiPermission>
    decreases s.len(),
{
    if s.len() == 0 { seq![] } else { all_permissions(s.drop_last()) + s.last().permissions }
}

/// How many times each permission name occurs in `p`.
pub open spec fn name_counts(p: Seq<ApiPermission>) -> Map<Seq<char>, nat>
    decreases p.len(),
{
    if p.len() == 0 {
        Map::empty()
    } else {
        let m = name_counts(p.drop_last());
        let k = permission_name(p.last());
        m.insert(k, if m.dom().contains(k) { m[k] + 1 } else { 1 })
    }
}

/// How many keys of `s` are active.
pub open spec fn active_count(s: Seq<ApiKeyView>) -> nat
    decreases s.len(),
{
    if s.len() == 0 { 0 } else { active_count(s.drop_last()) + if s.last().is_active { 1nat } else { 0nat } }
}

/// How many keys of `s` have expired at `now`.
pub open spec fn expired_count(s: Seq<ApiKeyView>, now: u64) -> nat
    decreases s.len(),
{
    if s.len() == 0 { 0 } else { expired_count(s.drop_last(), now) + if key_expired(s.last(), now) { 1nat } else { 0nat } }
}

/// The hashes of the keys of `s` that have expired at `now`.
pub open spec fn expired_hashes(s: Seq<ApiKeyView>, now: u64) -> Set<Seq<char>>
    decreases s.len(),
{
    if s.len() == 0 {
        Set::empty()
    } else if key_expired(s.last(), now) {
        expired_hashes(s.drop_last(), now).insert(s.last().key_hash)
    } else {
        expired_hashes(s.drop_last(), now)
    }
}

/// The keys of `s` owned by `user`, in order.
pub open spec fn keys_of_user(s: Seq<ApiKeyView>, user: Seq<char>) -> Seq<ApiKeyView>
    decreases s.len(),
{
    if s.len() == 0 {
        seq![]
    } else if s.last().user_id == Some(user) {
        keys_of_user(s.drop_last(), user).push(s.last())
    } else {
        keys_of_user(s.drop_last(), user)
    }
}

/// Whether `ip` may use a key: no restriction, or an allowed entry equal to it,
/// or any allowed entry written as a network (with a `/`).
pub open spec fn ip_permitted(k: ApiKeyView, ip: Seq<char>) -> bool {
    k.allowed_ips.len() == 0 || exists|i: int| 0 <= i < k.allowed_ips.len() && #[trigger] entry_admits(k.allowed_ips[i], ip)
}

/// Whether one allowed entry admits `ip`: it is a network (has a `/`) or equals `ip`.
pub open spec fn entry_admits(entry: Seq<char>, ip: Seq<char>) -> bool {
    entry.contains('/') || entry == ip
}

/// Keys by id, key ids by hash of the raw key, and counters by key id.
pub struct ApiKeyManager {
    keys: Store<ApiKey>,
    key_by_hash: Store<HashEntry>,
    usage_stats: Store<UsageEntry>,
}

/// What creating a key does.
pub open spec fn create_post(
    old: ApiKeyManager, new: ApiKeyManager, name: Seq<char>, permissions: Seq<ApiPermission>, user_id: Option<Seq<char>>,
    r: (ApiKey, String),
) -> bool {
    let k = r.0@;
    &&& is_raw_key_form(r.1@)
    &&& is_hyphenated_uuid(k.id)
    &&& k.name == name && k.permissions == permissions && k.user_id == user_id
    &&& k.key_hash == key_hash_text(r.1@)
    &&& k.key_prefix == r.1@.subrange(0, 8)
    &&& k.rate_limit == RateLimitConfig::default_spec()
    &&& k.last_used is None && k.expires_at is None && k.is_active && k.description is None
    &&& k.allowed_ips == Seq::<Seq<char>>::empty()
    &&& new.key_map() == old.key_map().insert(k.id, k)
    &&& new.hash_index() == old.hash_index().insert(k.key_hash, k.id)
    &&& new.usage() == old.usage().insert(k.id, ApiUsageStats::zero())
}

/// What presenting raw key `raw` at `now` does.
pub open spec fn validate_post(old: ApiKeyManager, new: ApiKeyManager, raw: Seq<char>, now: u64, r: ApiKeyValidationResult) -> bool {
    let h = key_hash_text(raw);
    if !old.hash_index().dom().contains(h) || !old.key_map().dom().contains(old.hash_index()[h]) {
        r matches ApiKeyValidationResult::Invalid { reason } && reason@ == "Key not found"@ && new == old
    } else {
        let id = old.hash_index()[h];
        let k = old.key_map()[id];
        if !k.is_active {
            r matches ApiKeyValidationResult::Invalid { reason } && reason@ == "Key is disabled"@ && new == old
        } else if key_expired(k, now) {
            r matches ApiKeyValidationResult::Expired { key_id } && key_id@ == id && new == old
        } else {
            &&& r matches ApiKeyValidationResult::Valid { key } && key@ == k
            &&& new.key_map() == old.key_map()
            &&& new.hash_index() == old.hash_index()
            &&& new.usage() == old.usage().insert(id, recorded(old.usage_of(id), now))
        }
    }
}

/// What replacing key `id` by `updated` does (`Key not found` when there is none).
pub open spec fn update_post(old: ApiKeyManager, new: ApiKeyManager, id: Seq<char>, ok: bool, updated: ApiKeyView) -> bool {
    &&& new.hash_index() == old.hash_index()
    &&& new.usage() == old.usage()
    &&& if old.key_map().dom().contains(id) {
        ok && new.key_map() == old.key_map().insert(id, updated)
    } else {
        !ok && new.key_map() == old.key_map()
    }
}

/// What deleting key `id` does.
pub open spec fn delete_post(old: ApiKeyManager, new: ApiKeyManager, id: Seq<char>, r: Result<(), String>) -> bool {
    if old.key_map().dom().contains(id) {
        &&& r is Ok
        &&& new.key_map() == old.key_map().remove(id)
        &&& new.hash_index() == old.hash_index().remove(old.key_map()[id].key_hash)
        &&& new.usage() == old.usage().remove(id)
    } else {
        r matches Err(e) && e@ == "Key not found"@ && new == old
    }
}

impl ApiKeyManager {
    /// The keys, by id.
    pub closed spec fn key_map(&self) -> Map<Seq<char>, ApiKeyView> {
        Map::new(|k: Seq<char>| self.keys.map().dom().contains(k), |k: Seq<char>| self.keys.map()[k]@)
    }

    /// The keys in their order.
    pub closed spec fn key_list(&self) -> Seq<ApiKeyView> {
        self.keys.items().map_values(|k: ApiKey| k@)
    }

    /// Key ids by hash of the raw key.
    pub closed spec fn hash_index(&self) -> Map<Seq<char>, Seq<char>> {
        Map::new(|h: Seq<char>| self.key_by_hash.map().dom().contains(h), |h: Seq<char>| self.key_by_hash.map()[h].key_id@)
    }

    /// Counters by key id.
    pub closed spec fn usage(&self) -> Map<Seq<char>, ApiUsageStats> {
        Map::new(|k: Seq<char>| self.usage_stats.map().dom().contains(k), |k: Seq<char>| self.usage_stats.map()[k].stats)
    }

    /// The counters of `id` (zero when there are none).
    pub open spec fn usage_of(&self, id: Seq<char>) -> ApiUsageStats {
        if self.usage().dom().contains(id) { self.usage()[id] } else { ApiUsageStats::zero() }
    }

    /// No keys.
    pub fn new() -> (m: ApiKeyManager)
        ensures
            m.key_map() == Map::<Seq<char>, ApiKeyView>::empty(),
            m.hash_index() == Map::<Seq<char>, Seq<char>>::empty(),
            m.usage() == Map::<Seq<char>, ApiUsageStats>::empty(),
    {
        let m = ApiKeyManager { keys: Store::new(), key_by_hash: Store::new(), usage_stats: Store::new() };
        assert(m.key_map() =~= Map::<Seq<char>, ApiKeyView>::empty());
        assert(m.hash_index() =~= Map::<Seq<char>, Seq<char>>::empty());
        assert(m.usage() =~= Map::<Seq<char>, ApiUsageStats>::empty());
        m
    }

    /// Creates a key for `user_id` and returns it with its raw secret.
    pub fn create_key(&mut self, name: String, permissions: Vec<ApiPermission>, user_id: Option<String>) -> (r: (ApiKey, String))
        ensures
            create_post(*old(self), *final(self), name@, permissions@, opt_view(user_id), r),
    {
        let (key, raw) = ApiKey::new(name, permissions);
        let mut key = key;
        key.user_id = user_id;
        let copy = key.duplicate();
        let hash = key.key_hash.clone();
        let id = key.id.clone();
        let id2 = key.id.clone();
        let ghost kv = key@;
        self.keys.upsert(key);
        self.key_by_hash.upsert(HashEntry { hash, key_id: id });
        self.usage_stats.upsert(UsageEntry { key_id: id2, stats: ApiUsageStats::default() });
        proof {
            assert(self.key_map() =~= old(self).key_map().insert(kv.id, kv));
            assert(self.hash_index() =~= old(self).hash_index().insert(kv.key_hash, kv.id));
            assert(self.usage() =~= old(self).usage().insert(kv.id, ApiUsageStats::zero()));
        }
        (copy, raw)
    }

    /// Adds one request at `now` to the counters of `id`.
    pub fn record_usage_at(&mut self, key_id: &str, now: u64)
        ensures
            final(self).usage() == old(self).usage().insert(key_id@, recorded(old(self).usage_of(key_id@), now)),
            final(self).key_map() == old(self).key_map(),
            final(self).hash_index() == old(self).hash_index(),
    {
        let stats = match self.usage_stats.remove(key_id) {
            Some(e) => e.stats,
            None => ApiUsageStats::default(),
        };
        let next = ApiUsageStats { total_requests: stats.total_requests.saturating_add(1), last_used: now, ..stats };
        self.usage_stats.upsert(UsageEntry { key_id: owned(key_id), stats: next });
        assert(self.usage() =~= old(self).usage().insert(key_id@, recorded(old(self).usage_of(key_id@), now)));
    }

    /// Adds one request now to the counters of `id`.
    pub fn record_usage(&mut self, key_id: &str)
        ensures
            exists|now: u64| final(self).usage() == old(self).usage().insert(key_id@, recorded(old(self).usage_of(key_id@), now)),
            final(self).key_map() == old(self).key_map(),
            final(self).hash_index() == old(self).hash_index(),
    {
        let now = now_millis_unsigned();
        self.record_usage_at(key_id, now);
    }

    /// Looks up a raw key at `now` (see `validate_post`).
    pub fn validate_key_at(&mut self, raw_key: &str, now: u64) -> (r: ApiKeyValidationResult)
        ensures
            validate_post(*old(self), *final(self), raw_key@, now, r),
    {
        let hash = hash_key(raw_key);
        let id = match self.key_by_hash.get(hash.as_str()) {
            Some(e) => e.key_id.clone(),
            None => return ApiKeyValidationResult::Invalid { reason: owned("Key not found") },
        };
        let key = match self.keys.get(id.as_str()) {
            Some(k) => k.duplicate(),
            None => return ApiKeyValidationResult::Invalid { reason: owned("Key not found") },
        };
        if !key.is_active {
            return ApiKeyValidationResult::Invalid { reason: owned("Key is disabled") };
        }
        if key.is_expired(now) {
            return ApiKeyValidationResult::Expired { key_id: id };
        }
        self.record_usage_at(id.as_str(), now);
        ApiKeyValidationResult::Valid { key }
    }

    /// Looks up a raw key now.
    pub fn validate_key(&mut self, raw_key: &str) -> (r: ApiKeyValidationResult)
        ensures
            exists|now: u64| validate_post(*old(self), *final(self), raw_key@, now, r),
    {
        let now = now_millis_unsigned();
        self.validate_key_at(raw_key, now)
    }

    /// A copy of key `id`, if any.
    pub fn get_key(&self, key_id: &str) -> (r: Option<ApiKey>)
        ensures
            match r {
                Some(k) => self.key_map().dom().contains(key_id@) && k@ == self.key_map()[key_id@],
                None => !self.key_map().dom().contains(key_id@),
            },
    {
        match self.keys.get(key_id) {
            Some(k) => Some(k.duplicate()),
            None => None,
        }
    }

    /// Copies of the keys owned by `user_id`, in store order.
    pub fn get_keys_by_user(&self, user_id: &str) -> (v: Vec<ApiKey>)
        ensures
            v@.map_values(|k: ApiKey| k@) == keys_of_user(self.key_list(), user_id@),
    {
        let items = self.keys.as_vec();
        let ghost kl = self.key_list();
        let n = items.len();
        let mut v: Vec<ApiKey> = Vec::new();
        let mut i: usize = 0;
        while i < n
            invariant
                n == items@.len(),
                kl == items@.map_values(|k: ApiKey| k@),
                i <= n,
                v@.map_values(|k: ApiKey| k@) == keys_of_user(kl.subrange(0, i as int), user_id@),
            decreases n - i,
        {
            proof { assert(kl.subrange(0, i + 1).drop_last() =~= kl.subrange(0, i as int)); }
            let owned_by = match &items[i].user_id {
                Some(u) => str_eq(u.as_str(), user_id),
                None => false,
            };
            if owned_by {
                let ghost before = v@.map_values(|k: ApiKey| k@);
                v.push(items[i].duplicate());
                assert(v@.map_values(|k: ApiKey| k@) =~= before.push(kl[i as int]));
            }
            i = i + 1;
        }
        proof { assert(kl.subrange(0, n as int) =~= kl); }
        v
    }

    /// Copies of all keys, in store order.
    pub fn list_keys(&self) -> (v: Vec<ApiKey>)
        ensures
            v@.map_values(|k: ApiKey| k@) == self.key_list(),
    {
        let items = self.keys.as_vec();
        let ghost kl = self.key_list();
        let n = items.len();
        let mut v: Vec<ApiKey> = Vec::new();
        let mut i: usize = 0;
        while i < n
            invariant
                n == items@.len(),
                kl == items@.map_values(|k: ApiKey| k@),
                i <= n,
                v@.map_values(|k: ApiKey| k@) == kl.subrange(0, i as int),
            decreases n - i,
        {
            let ghost before = v@.map_values(|k: ApiKey| k@);
            v.push(items[i].duplicate());
            assert(v@.map_values(|k: ApiKey| k@) =~= before.push(kl[i as int]));
            assert(kl.subrange(0, i + 1) =~= kl.subrange(0, i as int).push(kl[i as int]));
            i = i + 1;
        }
        proof { assert(kl.subrange(0, n as int) =~= kl); }
        v
    }

    /// Renames key `id` and/or replaces its permissions; returns a copy of the result.
    pub fn update_key(&mut self, key_id: &str, name: Option<String>, permissions: Option<Vec<ApiPermission>>) -> (r: Result<ApiKey, String>)
        ensures
            update_post(*old(self), *final(self), key_id@, r is Ok, ApiKeyView {
                name: match name { Some(n) => n@, None => old(self).key_map()[key_id@].name },
                permissions: match permissions { Some(p) => p@, None => old(self).key_map()[key_id@].permissions },
                ..old(self).key_map()[key_id@]
            }),
            match r {
                Ok(k) => k@ == final(self).key_map()[key_id@],
                Err(e) => e@ == "Key not found"@,
            },
    {
        match self.keys.remove(key_id) {
            Some(k) => {
                let mut k = k;
                match name {
                    Some(n) => { k.name = n; }
                    None => {}
                }
                match permissions {
                    Some(p) => { k.permissions = p; }
                    None => {}
                }
                let copy = k.duplicate();
                let ghost kv = k@;
                self.keys.upsert(k);
                assert(self.key_map() =~= old(self).key_map().insert(key_id@, kv));
                Ok(copy)
            }
            None => {
                assert(old(self).keys.map().remove(key_id@) =~= old(self).keys.map());
                Err(owned("Key not found"))
            }
        }
    }

    /// Turns key `id` on.
    pub fn enable_key(&mut self, key_id: &str) -> (r: Result<(), String>)
        ensures
            update_post(*old(self), *final(self), key_id@, r is Ok, ApiKeyView { is_active: true, ..old(self).key_map()[key_id@] }),
            r matches Err(e) ==> e@ == "Key not found"@,
    {
        match self.keys.remove(key_id) {
            Some(k) => {
                let mut k = k;
                k.is_active = true;
                let ghost kv = k@;
                self.keys.upsert(k);
                assert(self.key_map() =~= old(self).key_map().insert(key_id@, kv));
                Ok(())
            }
            None => {
                assert(old(self).keys.map().remove(key_id@) =~= old(self).keys.map());
                Err(owned("Key not found"))
            }
        }
    }

    /// Turns key `id` off.
    pub fn disable_key(&mut self, key_id: &str) -> (r: Result<(), String>)
        ensures
            update_post(*old(self), *final(self), key_id@, r is Ok, ApiKeyView { is_active: false, ..old(self).key_map()[key_id@] }),
            r matches Err(e) ==> e@ == "Key not found"@,
    {
        match self.keys.remove(key_id) {
            Some(k) => {
                let mut k = k;
                k.is_active = false;
                let ghost kv = k@;
                self.keys.upsert(k);
                assert(self.key_map() =~= old(self).key_map().insert(key_id@, kv));
                Ok(())
            }
            None => {
                assert(old(self).keys.map().remove(key_id@) =~= old(self).keys.map());
                Err(owned("Key not found"))
            }
        }
    }

    /// Sets the expiry time of key `id`.
    pub fn set_expiry(&mut self, key_id: &str, expires_at: u64) -> (r: Result<(), String>)
        ensures
            update_post(*old(self), *final(self), key_id@, r is Ok, ApiKeyView { expires_at: Some(expires_at), ..old(self).key_map()[key_id@] }),
            r matches Err(e) ==> e@ == "Key not found"@,
    {
        match self.keys.remove(key_id) {
            Some(k) => {
                let mut k = k;
                k.expires_at = Some(expires_at);
                let ghost kv = k@;
                self.keys.upsert(k);
                assert(self.key_map() =~= old(self).key_map().insert(key_id@, kv));
                Ok(())
            }
            None => {
                assert(old(self).keys.map().remove(key_id@) =~= old(self).keys.map());
                Err(owned("Key not found"))
            }
        }
    }

    /// Sets the rate limit of key `id`.
    pub fn set_rate_limit(&mut self, key_id: &str, rate_limit: RateLimitConfig) -> (r: Result<(), String>)
        ensures
            update_post(*old(self), *final(self), key_id@, r is Ok, ApiKeyView { rate_limit, ..old(self).key_map()[key_id@] }),
            r matches Err(e) ==> e@ == "Key not found"@,
    {
        match self.keys.remove(key_id) {
            Some(k) => {
                let mut k = k;
                k.rate_limit = rate_limit;
                let ghost kv = k@;
                self.keys.upsert(k);
                assert(self.key_map() =~= old(self).key_map().insert(key_id@, kv));
                Ok(())
            }
            None => {
                assert(old(self).keys.map().remove(key_id@) =~= old(self).keys.map());
                Err(owned("Key not found"))
            }
        }
    }

    /// Sets the addresses allowed to use key `id`.
    pub fn set_allowed_ips(&mut self, key_id: &str, ips: Vec<String>) -> (r: Result<(), String>)
        ensures
            update_post(*old(self), *final(self), key_id@, r is Ok, ApiKeyView { allowed_ips: strings_view(ips@), ..old(self).key_map()[key_id@] }),
            r matches Err(e) ==> e@ == "Key not found"@,
    {
        match self.keys.remove(key_id) {
            Some(k) => {
                let mut k = k;
                k.allowed_ips = ips;
                let ghost kv = k@;
                self.keys.upsert(k);
                assert(self.key_map() =~= old(self).key_map().insert(key_id@, kv));
                Ok(())
            }
            None => {
                assert(old(self).keys.map().remove(key_id@) =~= old(self).keys.map());
                Err(owned("Key not found"))
            }
        }
    }

    /// Deletes key `id`, its hash entry and its counters.
    pub fn delete_key(&mut self, key_id: &str) -> (r: Result<(), String>)
        ensures
            delete_post(*old(self), *final(self), key_id@, r),
    {
        match self.keys.remove(key_id) {
            Some(k) => {
                let _ = self.key_by_hash.remove(k.key_hash.as_str());
                let _ = self.usage_stats.remove(key_id);
                assert(self.key_map() =~= old(self).key_map().remove(key_id@));
                assert(self.hash_index() =~= old(self).hash_index().remove(old(self).key_map()[key_id@].key_hash));
                assert(self.usage() =~= old(self).usage().remove(key_id@));
                Ok(())
            }
            None => {
                assert(old(self).keys.map().remove(key_id@) =~= old(self).keys.map());
                Err(owned("Key not found"))
            }
        }
    }

    /// Whether `ip` may use key `id` (false when there is no such key).
    pub fn check_ip_permission(&self, key_id: &str, ip: &str) -> (b: bool)
        ensures
            b == (self.key_map().dom().contains(key_id@) && ip_permitted(self.key_map()[key_id@], ip@)),
    {
        let key = match self.keys.get(key_id) {
            Some(k) => k,
            None => return false,
        };
        let n = key.allowed_ips.len();
        if n == 0 {
            return true;
        }
        let ghost a = strings_view(key.allowed_ips@);
        assert(a == self.key_map()[key_id@].allowed_ips);
        let mut i: usize = 0;
        while i < n
            invariant
                n == key.allowed_ips@.len(),
                a == strings_view(key.allowed_ips@),
                a == self.key_map()[key_id@].allowed_ips,
                self.key_map().dom().contains(key_id@),
                i <= n,
                forall|j: int| 0 <= j < i ==> !#[trigger] entry_admits(a[j], ip@),
            decreases n - i,
        {
            let entry = key.allowed_ips[i].as_str();
            assert(entry@ == a[i as int]);
            let slash = contains_char(entry, '/');
            if slash || str_eq(entry, ip) {
                assert(entry_admits(self.key_map()[key_id@].allowed_ips[i as int], ip@));
                return true;
            }
            assert(!entry_admits(a[i as int], ip@));
            i = i + 1;
        }
        false
    }

    /// Whether key `id` grants `permission` (false when there is no such key).
    pub fn check_permission(&self, key_id: &str, permission: &ApiPermission) -> (b: bool)
        ensures
            b == (self.key_map().dom().contains(key_id@) && grants(self.key_map()[key_id@], *permission)),
    {
        match self.keys.get(key_id) {
            Some(k) => k.has_permission(permission),
            None => false,
        }
    }

    /// The counters of key `id`, if any.
    pub fn get_usage_stats(&self, key_id: &str) -> (r: Option<ApiUsageStats>)
        ensures
            match r {
                Some(s) => self.usage().dom().contains(key_id@) && s == self.usage()[key_id@],
                None => !self.usage().dom().contains(key_id@),
            },
    {
        match self.usage_stats.get(key_id) {
            Some(e) => Some(e.stats),
            None => None,
        }
    }

    /// The counters of every key, each key once.
    pub fn get_all_usage_stats(&self) -> (v: Vec<UsageEntry>)
        ensures
            unique_keys(v@),
            forall|k: Seq<char>| #[trigger] has_key(v@, k) <==> self.usage().dom().contains(k),
            forall|i: int| 0 <= i < v@.len() ==> #[trigger] v@[i].stats == self.usage()[v@[i].key_id@],
    {
        self.usage_stats.facts();
        let items = self.usage_stats.as_vec();
        let n = items.len();
        let mut v: Vec<UsageEntry> = Vec::new();
        let mut i: usize = 0;
        while i < n
            invariant
                n == items@.len(),
                items@ == self.usage_stats.items(),
                i <= n,
                v@.len() == i,
                forall|j: int| 0 <= j < i ==> #[trigger] v@[j].key_id@ == items@[j].key_id@ && v@[j].stats == items@[j].stats,
            decreases n - i,
        {
            v.push(UsageEntry { key_id: items[i].key_id.clone(), stats: items[i].stats });
            i = i + 1;
        }
        proof {
            assert forall|a: int, b: int| 0 <= a < v@.len() && 0 <= b < v@.len() && a != b implies
                #[trigger] v@[a].key_view() != #[trigger] v@[b].key_view() by {
                assert(items@[a].key_view() != items@[b].key_view());
            }
            assert forall|k: Seq<char>| #[trigger] has_key(v@, k) <==> self.usage().dom().contains(k) by {
                if has_key(v@, k) {
                    let j = choose|j: int| 0 <= j < v@.len() && #[trigger] v@[j].key_view() == k;
                    assert(items@[j].key_view() == k);
                }
                if self.usage().dom().contains(k) {
                    let j = choose|j: int| 0 <= j < items@.len() && #[trigger] items@[j].key_view() == k;
                    assert(v@[j].key_view() == k);
                }
            }
            assert forall|i: int| 0 <= i < v@.len() implies #[trigger] v@[i].stats == self.usage()[v@[i].key_id@] by {
                assert(self.usage_stats.map().dom().contains(items@[i].key_view()));
            }
        }
        v
    }

    /// Key counts at `now` and how often each permission is granted.
    pub fn get_stats_at(&self, now: u64) -> (st: ApiKeyStats)
        requires
            all_permissions(self.key_list()).len() <= usize::MAX,
        ensures
            st.total_keys == self.key_list().len(),
            st.active_keys == active_count(self.key_list()),
            st.expired_keys == expired_count(self.key_list(), now),
            unique_keys(st.permission_distribution@),
            forall|k: Seq<char>| #[trigger] has_key(st.permission_distribution@, k) <==> name_counts(all_permissions(self.key_list())).dom().contains(k),
            forall|i: int| 0 <= i < st.permission_distribution@.len() ==> #[trigger] st.permission_distribution@[i].count
                == name_counts(all_permissions(self.key_list()))[st.permission_distribution@[i].key@],
    {
        let items = self.keys.as_vec();
        let ghost kl = self.key_list();
        let n = items.len();
        let mut active: usize = 0;
        let mut expired: usize = 0;
        let mut counts: Store<CountEntry> = Store::new();
        let mut i: usize = 0;
        proof { lemma_all_permissions_prefix(kl, n as int); }
        while i < n
            invariant
                n == items@.len(),
                kl == items@.map_values(|k: ApiKey| k@),
                all_permissions(kl).len() <= usize::MAX,
                i <= n,
                active == active_count(kl.subrange(0, i as int)),
                active <= i,
                expired == expired_count(kl.subrange(0, i as int), now),
                expired <= i,
                counts.map().dom() == name_counts(all_permissions(kl.subrange(0, i as int))).dom(),
                forall|k: Seq<char>| #[trigger] counts.map().dom().contains(k) ==>
                    counts.map()[k].count == name_counts(all_permissions(kl.subrange(0, i as int)))[k],
            decreases n - i,
        {
            let ghost pre = kl.subrange(0, i as int);
            proof {
                assert(kl.subrange(0, i + 1).drop_last() =~= pre);
                lemma_all_permissions_prefix(kl, i + 1);
            }
            if items[i].is_active {
                active = active + 1;
            }
            if items[i].is_expired(now) {
                expired = expired + 1;
            }
            let perms = &items[i].permissions;
            let m = perms.len();
            let mut j: usize = 0;
            while j < m
                invariant
                    m == perms@.len(),
                    perms@ == kl[i as int].permissions,
                    j <= m,
                    all_permissions(pre).len() + m <= usize::MAX,
                    counts.map().dom() == name_counts(all_permissions(pre) + perms@.subrange(0, j as int)).dom(),
                    forall|k: Seq<char>| #[trigger] counts.map().dom().contains(k) ==>
                        counts.map()[k].count == name_counts(all_permissions(pre) + perms@.subrange(0, j as int))[k],
                decreases m - j,
            {
                let ghost before = all_permissions(pre) + perms@.subrange(0, j as int);
                let ghost after = all_permissions(pre) + perms@.subrange(0, j + 1);
                proof {
                    assert(after.drop_last() =~= before);
                    assert(after.last() == perms@[j as int]);
                    lemma_name_counts_bound(before);
                }
                bump_count(&mut counts, perms[j].name());
                proof {
                    assert(counts.map().dom() =~= name_counts(after).dom());
                }
                j = j + 1;
            }
            proof {
                assert(perms@.subrange(0, m as int) =~= perms@);
                assert(all_permissions(kl.subrange(0, i + 1)) =~= all_permissions(pre) + perms@);
            }
            i = i + 1;
        }
        proof { assert(kl.subrange(0, n as int) =~= kl); }
        counts.facts();
        let ghost cm = counts.map();
        let dist = counts.into_vec();
        proof {
            assert forall|x: int| 0 <= x < dist@.len() implies #[trigger] dist@[x].count
                == name_counts(all_permissions(kl))[dist@[x].key@] by {
                assert(cm.dom().contains(dist@[x].key_view()));
            }
        }
        ApiKeyStats { total_keys: n, active_keys: active, expired_keys: expired, permission_distribution: dist }
    }

    /// Removes the keys expired at `now` and their hash entries (their counters
    /// stay); returns how many keys were removed.
    pub fn cleanup_expired_at(&mut self, now: u64) -> (removed: usize)
        ensures
            final(self).key_map() == old(self).key_map().restrict(
                old(self).key_map().dom().filter(|id: Seq<char>| !key_expired(old(self).key_map()[id], now))),
            final(self).hash_index() == old(self).hash_index().remove_keys(expired_hashes(old(self).key_list(), now)),
            final(self).usage() == old(self).usage(),
            removed == expired_count(old(self).key_list(), now),
    {
        let mut old_keys: Store<ApiKey> = Store::new();
        std::mem::swap(&mut old_keys, &mut self.keys);
        old_keys.facts();
        let ghost okm = old_keys.map();
        let ghost kl = old_keys.items().map_values(|k: ApiKey| k@);
        let ghost oh = self.hash_index();
        let items = old_keys.as_vec();
        let n = items.len();
        let mut fresh: Store<ApiKey> = Store::new();
        let mut removed: usize = 0;
        let mut i: usize = 0;
        while i < n
            invariant
                n == items@.len(),
                items@ == old_keys.items(),
                okm == old_keys.map(),
                kl == items@.map_values(|k: ApiKey| k@),
                unique_keys(items@),
                forall|j: int| 0 <= j < items@.len() ==> #[trigger] okm.dom().contains(items@[j].key_view())
                    && okm[items@[j].key_view()] == items@[j],
                forall|k: Seq<char>| #[trigger] okm.dom().contains(k) <==> has_key(items@, k),
                i <= n,
                removed == expired_count(kl.subrange(0, i as int), now),
                removed <= i,
                self.hash_index() == oh.remove_keys(expired_hashes(kl.subrange(0, i as int), now)),
                self.usage() == old(self).usage(),
                forall|k: Seq<char>| #[trigger] fresh.map().dom().contains(k) <==>
                    (has_key(items@.subrange(0, i as int), k) && !key_expired(okm[k]@, now)),
                forall|k: Seq<char>| #[trigger] fresh.map().dom().contains(k) ==> fresh.map()[k]@ == okm[k]@,
            decreases n - i,
        {
            let ghost pre = kl.subrange(0, i as int);
            proof {
                lemma_has_key_step_keys(items@, i as int);
                assert(kl.subrange(0, i + 1).drop_last() =~= pre);
                let k = items@[i as int].key_view();
                assert(okm[k] == items@[i as int]);
            }
            proof {
                assert(kl[i as int] == items@[i as int]@);
                assert(kl.subrange(0, i + 1).last() == kl[i as int]);
            }
            if items[i].is_expired(now) {
                let ghost hb = self.hash_index();
                let _ = self.key_by_hash.remove(items[i].key_hash.as_str());
                removed = removed + 1;
                proof {
                    assert(expired_hashes(kl.subrange(0, i + 1), now) == expired_hashes(pre, now).insert(kl[i as int].key_hash));
                    assert(self.hash_index() =~= hb.remove(kl[i as int].key_hash));
                    assert(self.hash_index() =~= oh.remove_keys(expired_hashes(kl.subrange(0, i + 1), now)));
                }
            } else {
                fresh.upsert(items[i].duplicate());
            }
            i = i + 1;
        }
        proof {
            assert(kl.subrange(0, n as int) =~= kl);
        }
        self.keys = fresh;
        proof {
            assert(okm == old(self).keys.map());
            let om = old(self).key_map();
            let kept = om.dom().filter(|id: Seq<char>| !key_expired(om[id], now));
            assert forall|k: Seq<char>| self.key_map().dom().contains(k) <==> #[trigger] kept.contains(k) by {
                if self.key_map().dom().contains(k) {
                    assert(fresh.map().dom().contains(k));
                }
                if kept.contains(k) {
                    assert(om.dom().contains(k));
                    assert(has_key(items@, k));
                    assert(items@.subrange(0, n as int) =~= items@);
                }
            }
            assert(self.key_map() =~= old(self).key_map().restrict(
                old(self).key_map().dom().filter(|id: Seq<char>| !key_expired(old(self).key_map()[id], now))));
        }
        removed
    }
}

impl ApiKeyManager {
    /// Key counts now and how often each permission is granted.
    pub fn get_stats(&self) -> (st: ApiKeyStats)
        requires
            all_permissions(self.key_list()).len() <= usize::MAX,
        ensures
            st.total_keys == self.key_list().len(),
            st.active_keys == active_count(self.key_list()),
            exists|now: u64| st.expired_keys == expired_count(self.key_list(), now),
    {
        let now = now_millis_unsigned();
        self.get_stats_at(now)
    }

    /// Removes the keys expired now and their hash entries.
    pub fn cleanup_expired(&mut self) -> (removed: usize)
        ensures
            exists|now: u64| removed == expired_count(old(self).key_list(), now)
                && final(self).hash_index() == old(self).hash_index().remove_keys(expired_hashes(old(self).key_list(), now)),
            final(self).usage() == old(self).usage(),
    {
        let now = now_millis_unsigned();
        self.cleanup_expired_at(now)
    }
}

fn contains_char(s: &str, c: char) -> (b: bool)
    ensures
        b == s@.contains(c),
{
    let chars = chars_of(s);
    let n = chars.len();
    let mut i: usize = 0;
    while i < n
        invariant
            chars@ == s@,
            n == chars@.len(),
            i <= n,
            forall|j: int| 0 <= j < i ==> chars@[j] != c,
        decreases n - i,
    {
        if chars[i] == c {
            assert(s@[i as int] == c);
            return true;
        }
        i = i + 1;
    }
    false
}

proof fn lemma_all_permissions_prefix(s: Seq<ApiKeyView>, i: int)
    requires
        0 <= i <= s.len(),
    ensures
        all_permissions(s.subrange(0, i)).len() <= all_permissions(s).len(),
    decreases s.len() - i,
{
    if i < s.len() {
        lemma_all_permissions_prefix(s, i + 1);
        assert(s.subrange(0, i + 1).drop_last() =~= s.subrange(0, i));
        assert(all_permissions(s.subrange(0, i + 1)) == all_permissions(s.subrange(0, i)) + s[i].permissions);
    } else {
        assert(s.subrange(0, i) =~= s);
    }
}

proof fn lemma_name_counts_bound(p: Seq<ApiPermission>)
    ensures
        forall|k: Seq<char>| #[trigger] name_counts(p).dom().contains(k) ==> name_counts(p)[k] <= p.len(),
    decreases p.len(),
{
    if p.len() > 0 {
        lemma_name_counts_bound(p.drop_last());
        let m = name_counts(p.drop_last());
        assert forall|k: Seq<char>| #[trigger] name_counts(p).dom().contains(k) implies name_counts(p)[k] <= p.len() by {
            if m.dom().contains(k) {
                assert(m[k] <= p.len() - 1);
            }
        }
    }
}

proof fn lemma_has_key_step_keys(s: Seq<ApiKey>, i: int)
    requires
        0 <= i < s.len(),
    ensures
        forall|k: Seq<char>| has_key(s.subrange(0, i + 1), k) <==> (has_key(s.subrange(0, i), k) || k == s[i].key_view()),
{
    crate::security::rcon_brute_force::lemma_has_key_step(s, i);
}

/// A key presented with the secret it was created with is accepted, and the
/// accepted key is the one created.
pub proof fn law_created_key_validates(
    m1: ApiKeyManager, m2: ApiKeyManager, m3: ApiKeyManager, name: Seq<char>, permissions: Seq<ApiPermission>,
    user_id: Option<Seq<char>>, r: (ApiKey, String), now: u64, v: ApiKeyValidationResult,
)
    requires
        create_post(m1, m2, name, permissions, user_id, r),
        validate_post(m2, m3, r.1@, now, v),
    ensures
        v matches ApiKeyValidationResult::Valid { key } && key@ == r.0@,
{
}

/// A disabled key is refused.
pub proof fn law_disabled_key_is_refused(
    m1: ApiKeyManager, m2: ApiKeyManager, m3: ApiKeyManager, id: Seq<char>, ok: bool, raw: Seq<char>, now: u64,
    v: ApiKeyValidationResult,
)
    requires
        update_post(m1, m2, id, ok, ApiKeyView { is_active: false, ..m1.key_map()[id] }),
        m1.hash_index().dom().contains(key_hash_text(raw)),
        m1.hash_index()[key_hash_text(raw)] == id,
        m1.key_map().dom().contains(id),
        validate_post(m2, m3, raw, now, v),
    ensures
        v matches ApiKeyValidationResult::Invalid { reason } && reason@ == "Key is disabled"@,
{
}

/// Once a key is deleted, its secret is refused.
pub proof fn law_deleted_key_is_refused(
    m1: ApiKeyManager, m2: ApiKeyManager, m3: ApiKeyManager, id: Seq<char>, d: Result<(), String>, raw: Seq<char>,
    now: u64, v: ApiKeyValidationResult,
)
    requires
        delete_post(m1, m2, id, d),
        m1.key_map().dom().contains(id),
        key_hash_text(raw) == m1.key_map()[id].key_hash,
        validate_post(m2, m3, raw, now, v),
    ensures
        v matches ApiKeyValidationResult::Invalid { reason } && reason@ == "Key not found"@,
{
}

} // verus!
