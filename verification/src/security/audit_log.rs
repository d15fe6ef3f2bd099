//! The audit trail: a bounded log of security-relevant actions, with filters,
//! per-user and per-resource views, statistics and retention. Times are
//! milliseconds on one clock. Entries logged are also queued for listeners,
//! which their owner delivers.
use vstd::prelude::*;
use crate::keyed::{Keyed, Store, unique_keys, has_key, CountEntry, bump_count};
use crate::text::{owned, str_eq, chars_of, opt_view, copy_opt_string, copy_vec, has_substring, has_substring_exec};
use crate::ids::{new_uuid_string, is_hyphenated_uuid};
use crate::clock::now_millis_unsigned;

verus! {

/// What was done.
#[derive(Clone, Copy, PartialEq, Eq, Structural, Debug)]
pub enum AuditAction {
    Login,
    Logout,
    LoginFailed,
    PasswordChange,
    PasswordReset,
    UserCreate,
    UserDelete,
    UserUpdate,
    RoleChange,
    PermissionGrant,
    PermissionRevoke,
    ServerStart,
    ServerStop,
    ServerRestart,
    ServerCommand,
    FileRead,
    FileWrite,
    FileDelete,
    ConfigChange,
    SecurityScan,
    IpBlock,
    IpUnblock,
    TotpEnable,
    TotpDisable,
    TotpVerify,
    ApiKeyCreate,
    ApiKeyDelete,
    ApiKeyUse,
    SessionCreate,
    SessionDestroy,
    BruteForceBlock,
    SslRenew,
    DataExport,
    DataImport,
    AdminAction,
    Other,
}

/// The display group of an action.
pub open spec fn action_category(a: AuditAction) -> Seq<char> {
    match a {
        AuditAction::Login | AuditAction::Logout | AuditAction::LoginFailed => "认证"@,
        AuditAction::PasswordChange | AuditAction::PasswordReset => "密码"@,
        AuditAction::UserCreate | AuditAction::UserDelete | AuditAction::UserUpdate => "用户"@,
        AuditAction::RoleChange | AuditAction::PermissionGrant | AuditAction::PermissionRevoke => "权限"@,
        AuditAction::ServerStart | AuditAction::ServerStop | AuditAction::ServerRestart => "服务器"@,
        AuditAction::ServerCommand => "命令"@,
        AuditAction::FileRead | AuditAction::FileWrite | AuditAction::FileDelete => "文件"@,
        AuditAction::ConfigChange => "配置"@,
        AuditAction::SecurityScan => "安全"@,
        AuditAction::IpBlock | AuditAction::IpUnblock => "IP管理"@,
        AuditAction::TotpEnable | AuditAction::TotpDisable | AuditAction::TotpVerify => "双因素"@,
        AuditAction::ApiKeyCreate | AuditAction::ApiKeyDelete | AuditAction::ApiKeyUse => "API密钥"@,
        AuditAction::SessionCreate | AuditAction::SessionDestroy => "会话"@,
        AuditAction::BruteForceBlock => "暴力破解防护"@,
        AuditAction::SslRenew => "SSL"@,
        AuditAction::DataExport | AuditAction::DataImport => "数据"@,
        AuditAction::AdminAction | AuditAction::Other => "其他"@,
    }
}

/// The variant name of an action.
pub open spec fn action_name(a: AuditAction) -> Seq<char> {
    match a {
        AuditAction::Login => "Login"@,
        AuditAction::Logout => "Logout"@,
        AuditAction::LoginFailed => "LoginFailed"@,
        AuditAction::PasswordChange => "PasswordChange"@,
        AuditAction::PasswordReset => "PasswordReset"@,
        AuditAction::UserCreate => "UserCreate"@,
        AuditAction::UserDelete => "UserDelete"@,
        AuditAction::UserUpdate => "UserUpdate"@,
        AuditAction::RoleChange => "RoleChange"@,
        AuditAction::PermissionGrant => "PermissionGrant"@,
        AuditAction::PermissionRevoke => "PermissionRevoke"@,
        AuditAction::ServerStart => "ServerStart"@,
        AuditAction::ServerStop => "ServerStop"@,
        AuditAction::ServerRestart => "ServerRestart"@,
        AuditAction::ServerCommand => "ServerCommand"@,
        AuditAction::FileRead => "FileRead"@,
        AuditAction::FileWrite => "FileWrite"@,
        AuditAction::FileDelete => "FileDelete"@,
        AuditAction::ConfigChange => "ConfigChange"@,
        AuditAction::SecurityScan => "SecurityScan"@,
        AuditAction::IpBlock => "IpBlock"@,
        AuditAction::IpUnblock => "IpUnblock"@,
        AuditAction::TotpEnable => "TotpEnable"@,
        AuditAction::TotpDisable => "TotpDisable"@,
        AuditAction::TotpVerify => "TotpVerify"@,
        AuditAction::ApiKeyCreate => "ApiKeyCreate"@,
        AuditAction::ApiKeyDelete => "ApiKeyDelete"@,
        AuditAction::ApiKeyUse => "ApiKeyUse"@,
        AuditAction::SessionCreate => "SessionCreate"@,
        AuditAction::SessionDestroy => "SessionDestroy"@,
        AuditAction::BruteForceBlock => "BruteForceBlock"@,
        AuditAction::SslRenew => "SslRenew"@,
        AuditAction::DataExport => "DataExport"@,
        AuditAction::DataImport => "DataImport"@,
        AuditAction::AdminAction => "AdminAction"@,
        AuditAction::Other => "Other"@,
    }
}

impl AuditAction {
    /// The display group of the action.
    pub fn category(&self) -> (s: &'static str)
        ensures
            s@ == action_category(*self),
    {
        match self {
            AuditAction::Login | AuditAction::Logout | AuditAction::LoginFailed => "认证",
            AuditAction::PasswordChange | AuditAction::PasswordReset => "密码",
            AuditAction::UserCreate | AuditAction::UserDelete | AuditAction::UserUpdate => "用户",
            AuditAction::RoleChange | AuditAction::PermissionGrant | AuditAction::PermissionRevoke => "权限",
            AuditAction::ServerStart | AuditAction::ServerStop | AuditAction::ServerRestart => "服务器",
            AuditAction::ServerCommand => "命令",
            AuditAction::FileRead | AuditAction::FileWrite | AuditAction::FileDelete => "文件",
            AuditAction::ConfigChange => "配置",
            AuditAction::SecurityScan => "安全",
            AuditAction::IpBlock | AuditAction::IpUnblock => "IP管理",
            AuditAction::TotpEnable | AuditAction::TotpDisable | AuditAction::TotpVerify => "双因素",
            AuditAction::ApiKeyCreate | AuditAction::ApiKeyDelete | AuditAction::ApiKeyUse => "API密钥",
            AuditAction::SessionCreate | AuditAction::SessionDestroy => "会话",
            AuditAction::BruteForceBlock => "暴力破解防护",
            AuditAction::SslRenew => "SSL",
            AuditAction::DataExport | AuditAction::DataImport => "数据",
            AuditAction::AdminAction | AuditAction::Other => "其他",
        }
    }

    /// The variant name of the action, as its debug form prints it.
    pub fn name(&self) -> (s: &'static str)
        ensures
            s@ == action_name(*self),
    {
        match self {
            AuditAction::Login => "Login",
            AuditAction::Logout => "Logout",
            AuditAction::LoginFailed => "LoginFailed",
            AuditAction::PasswordChange => "PasswordChange",
            AuditAction::PasswordReset => "PasswordReset",
            AuditAction::UserCreate => "UserCreate",
            AuditAction::UserDelete => "UserDelete",
            AuditAction::UserUpdate => "UserUpdate",
            AuditAction::RoleChange => "RoleChange",
            AuditAction::PermissionGrant => "PermissionGrant",
            AuditAction::PermissionRevoke => "PermissionRevoke",
            AuditAction::ServerStart => "ServerStart",
            AuditAction::ServerStop => "ServerStop",
            AuditAction::ServerRestart => "ServerRestart",
            AuditAction::ServerCommand => "ServerCommand",
            AuditAction::FileRead => "FileRead",
            AuditAction::FileWrite => "FileWrite",
            AuditAction::FileDelete => "FileDelete",
            AuditAction::ConfigChange => "ConfigChange",
            AuditAction::SecurityScan => "SecurityScan",
            AuditAction::IpBlock => "IpBlock",
            AuditAction::IpUnblock => "IpUnblock",
            AuditAction::TotpEnable => "TotpEnable",
            AuditAction::TotpDisable => "TotpDisable",
            AuditAction::TotpVerify => "TotpVerify",
            AuditAction::ApiKeyCreate => "ApiKeyCreate",
            AuditAction::ApiKeyDelete => "ApiKeyDelete",
            AuditAction::ApiKeyUse => "ApiKeyUse",
            AuditAction::SessionCreate => "SessionCreate",
            AuditAction::SessionDestroy => "SessionDestroy",
            AuditAction::BruteForceBlock => "BruteForceBlock",
            AuditAction::SslRenew => "SslRenew",
            AuditAction::DataExport => "DataExport",
            AuditAction::DataImport => "DataImport",
            AuditAction::AdminAction => "AdminAction",
            AuditAction::Other => "Other",
        }
    }
}

/// How the action ended.
#[derive(Clone, Copy, PartialEq, Eq, Structural, Debug)]
pub enum AuditStatus {
    Success,
    Failure,
    Pending,
    Partial,
}

/// One logged action.
pub struct AuditLogEntry {
    pub id: String,
    pub timestamp: u64,
    pub user_id: Option<String>,
    pub username: Option<String>,
    pub action: AuditAction,
    pub resource: String,
    pub resource_id: Option<String>,
    pub ip_address: Option<String>,
    pub user_agent: Option<String>,
    pub status: AuditStatus,
    pub details: Option<String>,
    pub previous_value: Option<String>,
    pub new_value: Option<String>,
    pub session_id: Option<String>,
}

/// The plain content of an entry.
pub struct AuditEntryView {
    pub id: Seq<char>,
    pub timestamp: u64,
    pub user_id: Option<Seq<char>>,
    pub username: Option<Seq<char>>,
    pub action: AuditAction,
    pub resource: Seq<char>,
    pub resource_id: Option<Seq<char>>,
    pub ip_address: Option<Seq<char>>,
    pub user_agent: Option<Seq<char>>,
    pub status: AuditStatus,
    pub details: Option<Seq<char>>,
    pub previous_value: Option<Seq<char>>,
    pub new_value: Option<Seq<char>>,
    pub session_id: Option<Seq<char>>,
}

impl View for AuditLogEntry {
    type V = AuditEntryView;

    open spec fn view(&self) -> AuditEntryView {
        AuditEntryView {
            id: self.id@,
            timestamp: self.timestamp,
            user_id: opt_view(self.user_id),
            username: opt_view(self.username),
            action: self.action,
            resource: self.resource@,
            resource_id: opt_view(self.resource_id),
            ip_address: opt_view(self.ip_address),
            user_agent: opt_view(self.user_agent),
            status: self.status,
            details: opt_view(self.details),
            previous_value: opt_view(self.previous_value),
            new_value: opt_view(self.new_value),
            session_id: opt_view(self.session_id),
        }
    }
}

impl AuditLogEntry {
    /// A field-by-field copy.
    pub fn duplicate(&self) -> (r: AuditLogEntry)
        ensures
            r@ == self@,
    {
        AuditLogEntry {
            id: self.id.clone(),
            timestamp: self.timestamp,
            user_id: copy_opt_string(&self.user_id),
            username: copy_opt_string(&self.username),
            action: self.action,
            resource: self.resource.clone(),
            resource_id: copy_opt_string(&self.resource_id),
            ip_address: copy_opt_string(&self.ip_address),
            user_agent: copy_opt_string(&self.user_agent),
            status: self.status,
            details: copy_opt_string(&self.details),
            previous_value: copy_opt_string(&self.previous_value),
            new_value: copy_opt_string(&self.new_value),
            session_id: copy_opt_string(&self.session_id),
        }
    }
}

/// Who did it and how it went, for `log_with_context`.
pub struct AuditContext {
    pub user_id: Option<String>,
    pub username: Option<String>,
    pub ip_address: Option<String>,
    pub user_agent: Option<String>,
    pub resource_id: Option<String>,
    pub status: AuditStatus,
    pub details: Option<String>,
    pub previous_value: Option<String>,
    pub new_value: Option<String>,
    pub session_id: Option<String>,
}

impl Default for AuditContext {
    fn default() -> (c: AuditContext)
        ensures
            c.user_id is None && c.username is None && c.ip_address is None && c.user_agent is None,
            c.resource_id is None && c.details is None && c.previous_value is None && c.new_value is None,
            c.session_id is None,
            c.status == AuditStatus::Success,
    {
        AuditContext {
            user_id: None,
            username: None,
            ip_address: None,
            user_agent: None,
            resource_id: None,
            status: AuditStatus::Success,
            details: None,
            previous_value: None,
            new_value: None,
            session_id: None,
        }
    }
}

/// Which entries to select; every condition given must hold.
pub struct AuditLogFilter {
    pub start_date: Option<u64>,
    pub end_date: Option<u64>,
    pub user_id: Option<String>,
    pub actions: Option<Vec<AuditAction>>,
    pub status: Option<AuditStatus>,
    pub resource: Option<String>,
    pub ip_address: Option<String>,
}

impl Default for AuditLogFilter {
    fn default() -> (f: AuditLogFilter)
        ensures
            f.start_date is None && f.end_date is None && f.user_id is None && f.actions is None,
            f.status is None && f.resource is None && f.ip_address is None,
    {
        AuditLogFilter { start_date: None, end_date: None, user_id: None, actions: None, status: None, resource: None, ip_address: None }
    }
}

/// Counts over the log, and its newest entry.
pub struct AuditStats {
    pub total_entries: usize,
    pub success_count: usize,
    pub failure_count: usize,
    pub action_counts: Vec<CountEntry>,
    pub user_activity_counts: Vec<CountEntry>,
    pub last_entry: Option<AuditLogEntry>,
}

// ---------------------------------------------------------------------------
// Selection
// ---------------------------------------------------------------------------

/// Whether an entry passes every condition of the filter.
pub open spec fn matches_filter(e: AuditEntryView, f: AuditLogFilter) -> bool {
    &&& (f.start_date matches Some(s) ==> e.timestamp >= s)
    &&& (f.end_date matches Some(t) ==> e.timestamp <= t)
    &&& (f.user_id matches Some(u) ==> e.user_id == Some(u@))
    &&& (f.actions matches Some(a) ==> a@.contains(e.action))
    &&& (f.status matches Some(s) ==> e.status == s)
    &&& (f.resource matches Some(r) ==> has_substring(e.resource, r@))
    &&& (f.ip_address matches Some(ip) ==> e.ip_address == Some(ip@))
}

/// The entries of `s` that pass the filter, in order.
pub open spec fn filtered(s: Seq<AuditEntryView>, f: AuditLogFilter) -> Seq<AuditEntryView>
    decreases s.len(),
{
    if s.len() == 0 {
        seq![]
    } else if matches_filter(s.last(), f) {
        filtered(s.drop_last(), f).push(s.last())
    } else {
        filtered(s.drop_last(), f)
    }
}

/// The entries of `s` by `user`, in order.
pub open spec fn by_user(s: Seq<AuditEntryView>, user: Seq<char>) -> Seq<AuditEntryView>
    decreases s.len(),
{
    if s.len() == 0 {
        seq![]
    } else if s.last().user_id == Some(user) {
        by_user(s.drop_last(), user).push(s.last())
    } else {
        by_user(s.drop_last(), user)
    }
}

/// The entries of `s` on exactly `resource`, in order.
pub open spec fn by_resource(s: Seq<AuditEntryView>, resource: Seq<char>) -> Seq<AuditEntryView>
    decreases s.len(),
{
    if s.len() == 0 {
        seq![]
    } else if s.last().resource == resource {
        by_resource(s.drop_last(), resource).push(s.last())
    } else {
        by_resource(s.drop_last(), resource)
    }
}

/// The entries of `s` with a timestamp in `start..=end`, in order.
pub open spec fn in_range(s: Seq<AuditEntryView>, start: u64, end: u64) -> Seq<AuditEntryView>
    decreases s.len(),
{
    if s.len() == 0 {
        seq![]
    } else if start <= s.last().timestamp && s.last().timestamp <= end {
        in_range(s.drop_last(), start, end).push(s.last())
    } else {
        in_range(s.drop_last(), start, end)
    }
}

/// The entries of `s` later than `before`, in order.
pub open spec fn later_than(s: Seq<AuditEntryView>, before: u64) -> Seq<AuditEntryView>
    decreases s.len(),
{
    if s.len() == 0 {
        seq![]
    } else if s.last().timestamp > before {
        later_than(s.drop_last(), before).push(s.last())
    } else {
        later_than(s.drop_last(), before)
    }
}

/// The newest `n` entries of `s` (all when there are fewer), newest first.
pub open spec fn newest<T>(s: Seq<T>, n: nat) -> Seq<T> {
    Seq::new(if n < s.len() { n } else { s.len() }, |i: int| s[s.len() - 1 - i])
}

/// How many entries of `s` have status `st`.
pub open spec fn status_count(s: Seq<AuditEntryView>, st: AuditStatus) -> nat
    decreases s.len(),
{
    if s.len() == 0 { 0 } else { status_count(s.drop_last(), st) + if s.last().status == st { 1nat } else { 0nat } }
}

/// How many entries of `s` have each action name.
pub open spec fn action_counts(s: Seq<AuditEntryView>) -> Map<Seq<char>, nat>
    decreases s.len(),
{
    if s.len() == 0 {
        Map::empty()
    } else {
        let m = action_counts(s.drop_last());
        let k = action_name(s.last().action);
        m.insert(k, if m.dom().contains(k) { m[k] + 1 } else { 1 })
    }
}

/// How many entries of `s` each user has.
pub open spec fn user_counts(s: Seq<AuditEntryView>) -> Map<Seq<char>, nat>
    decreases s.len(),
{
    if s.len() == 0 {
        Map::empty()
    } else {
        let m = user_counts(s.drop_last());
        match s.last().user_id {
            Some(u) => m.insert(u, if m.dom().contains(u) { m[u] + 1 } else { 1 }),
            None => m,
        }
    }
}

/// The log after appending `e` with room for `max` entries: when full, the
/// oldest entry makes way first.
pub open spec fn appended(s: Seq<AuditEntryView>, max: usize, e: AuditEntryView) -> Seq<AuditEntryView> {
    (if s.len() >= max && s.len() > 0 { s.drop_first() } else { s }).push(e)
}

/// The log cut down to its newest `max` entries.
pub open spec fn trimmed(s: Seq<AuditEntryView>, max: usize) -> Seq<AuditEntryView> {
    if s.len() > max { s.subrange(s.len() - max, s.len() as int) } else { s }
}

fn opt_str_eq(a: &Option<String>, b: &str) -> (r: bool)
    ensures
        r == (opt_view(*a) == Some(b@)),
{
    match a {
        Some(x) => str_eq(x.as_str(), b),
        None => false,
    }
}

fn contains_action(v: &Vec<AuditAction>, a: AuditAction) -> (b: bool)
    ensures
        b == v@.contains(a),
{
    let n = v.len();
    let mut i: usize = 0;
    while i < n
        invariant
            n == v@.len(),
            i <= n,
            forall|j: int| 0 <= j < i ==> v@[j] != a,
        decreases n - i,
    {
        if v[i] == a {
            return true;
        }
        i = i + 1;
    }
    false
}

/// Whether `entry` passes every condition of `filter`.
pub fn entry_matches(entry: &AuditLogEntry, filter: &AuditLogFilter) -> (b: bool)
    ensures
        b == matches_filter(entry@, *filter),
{
    if let Some(start) = filter.start_date {
        if entry.timestamp < start {
            return false;
        }
    }
    if let Some(end) = filter.end_date {
        if entry.timestamp > end {
            return false;
        }
    }
    if let Some(user_id) = &filter.user_id {
        if !opt_str_eq(&entry.user_id, user_id.as_str()) {
            return false;
        }
    }
    if let Some(actions) = &filter.actions {
        if !contains_action(actions, entry.action) {
            return false;
        }
    }
    if let Some(status) = filter.status {
        if entry.status != status {
            return false;
        }
    }
    if let Some(resource) = &filter.resource {
        if !has_substring_exec(entry.resource.as_str(), resource.as_str()) {
            return false;
        }
    }
    if let Some(ip) = &filter.ip_address {
        if !opt_str_eq(&entry.ip_address, ip.as_str()) {
            return false;
        }
    }
    true
}

/// The plain content of each entry.
pub open spec fn entries_view(v: Seq<AuditLogEntry>) -> Seq<AuditEntryView> {
    v.map_values(|e: AuditLogEntry| e@)
}

fn newest_of(v: &Vec<AuditLogEntry>, n: usize) -> (r: Vec<AuditLogEntry>)
    ensures
        entries_view(r@) == newest(entries_view(v@), n as nat),
{
    let len = v.len();
    let take = if n < len { n } else { len };
    let ghost s = entries_view(v@);
    let mut r: Vec<AuditLogEntry> = Vec::new();
    let mut i: usize = 0;
    while i < take
        invariant
            len == v@.len(),
            s == entries_view(v@),
            take <= len,
            i <= take,
            entries_view(r@) == Seq::new(i as nat, |k: int| s[s.len() - 1 - k]),
        decreases take - i,
    {
        let ghost before = entries_view(r@);
        r.push(v[len - 1 - i].duplicate());
        assert(entries_view(r@) =~= before.push(s[s.len() - 1 - i]));
        i = i + 1;
        assert(entries_view(r@) =~= Seq::new(i as nat, |k: int| s[s.len() - 1 - k]));
    }
    assert(entries_view(r@) =~= newest(s, n as nat));
    r
}

// ---------------------------------------------------------------------------
// The logger
// ---------------------------------------------------------------------------

/// The bounded log, oldest first, and the entries not yet handed to listeners.
pub struct AuditLogger {
    entries: Vec<AuditLogEntry>,
    max_entries: usize,
    events: Vec<AuditLogEntry>,
}

/// What logging entry `e` does.
pub open spec fn log_post(old: AuditLogger, new: AuditLogger, e: AuditEntryView) -> bool {
    &&& new.entry_list() == appended(old.entry_list(), old.max(), e)
    &&& new.max() == old.max()
    &&& new.event_list() == old.event_list().push(e)
}

impl AuditLogger {
    /// The entries, oldest first.
    pub closed spec fn entry_list(&self) -> Seq<AuditEntryView> {
        entries_view(self.entries@)
    }

    /// How many entries the log keeps.
    pub closed spec fn max(&self) -> usize {
        self.max_entries
    }

    /// Entries logged and not yet handed to listeners, oldest first.
    pub closed spec fn event_list(&self) -> Seq<AuditEntryView> {
        entries_view(self.events@)
    }

    /// An empty log keeping up to 10000 entries.
    pub fn new() -> (l: AuditLogger)
        ensures
            l.entry_list() == Seq::<AuditEntryView>::empty(),
            l.max() == 10000,
            l.event_list() == Seq::<AuditEntryView>::empty(),
    {
        let l = AuditLogger { entries: Vec::new(), max_entries: 10000, events: Vec::new() };
        assert(l.entry_list() =~= Seq::<AuditEntryView>::empty());
        assert(l.event_list() =~= Seq::<AuditEntryView>::empty());
        l
    }

    /// Appends `entry`, dropping the oldest entry first when the log is full,
    /// and queues it for listeners.
    pub fn log(&mut self, entry: AuditLogEntry)
        ensures
            log_post(*old(self), *final(self), entry@),
    {
        let ghost before = self.entry_list();
        if self.entries.len() >= self.max_entries && self.entries.len() > 0 {
            let _ = self.entries.remove(0);
            assert(self.entry_list() =~= before.drop_first());
        }
        let ghost mid = self.entry_list();
        let copy = entry.duplicate();
        self.entries.push(entry);
        assert(self.entry_list() =~= mid.push(copy@));
        let ghost ev = self.event_list();
        self.events.push(copy);
        assert(self.event_list() =~= ev.push(entry@));
    }

    /// Hands the queued entries to the caller, oldest first.
    pub fn take_events(&mut self) -> (v: Vec<AuditLogEntry>)
        ensures
            entries_view(v@) == old(self).event_list(),
            final(self).event_list() == Seq::<AuditEntryView>::empty(),
            final(self).entry_list() == old(self).entry_list(),
            final(self).max() == old(self).max(),
    {
        let mut v: Vec<AuditLogEntry> = Vec::new();
        std::mem::swap(&mut v, &mut self.events);
        assert(self.event_list() =~= Seq::<AuditEntryView>::empty());
        v
    }

    /// Logs a successful `action` on `resource` by nobody in particular, now,
    /// under a fresh random id; returns the id.
    pub fn log_action(&mut self, action: AuditAction, resource: &str, details: Option<String>) -> (id: String)
        ensures
            is_hyphenated_uuid(id@),
            exists|e: AuditEntryView| #![trigger log_post(*old(self), *final(self), e)] {
                &&& log_post(*old(self), *final(self), e)
                &&& e.id == id@ && e.action == action && e.resource == resource@ && e.details == opt_view(details)
                &&& e.status == AuditStatus::Success
                &&& e.user_id is None && e.username is None && e.resource_id is None && e.ip_address is None
                &&& e.user_agent is None && e.previous_value is None && e.new_value is None && e.session_id is None
            },
    {
        let id = new_uuid_string();
        let now = now_millis_unsigned();
        let entry = AuditLogEntry {
            id: id.clone(),
            timestamp: now,
            user_id: None,
            username: None,
            action,
            resource: owned(resource),
            resource_id: None,
            ip_address: None,
            user_agent: None,
            status: AuditStatus::Success,
            details,
            previous_value: None,
            new_value: None,
            session_id: None,
        };
        let ghost e = entry@;
        self.log(entry);
        assert(log_post(*old(self), *self, e));
        id
    }

    /// Logs `action` on `resource` with the given context, now, under a fresh
    /// random id; returns the id.
    pub fn log_with_context(&mut self, action: AuditAction, resource: &str, context: AuditContext) -> (id: String)
        ensures
            is_hyphenated_uuid(id@),
            exists|e: AuditEntryView| #![trigger log_post(*old(self), *final(self), e)] {
                &&& log_post(*old(self), *final(self), e)
                &&& e.id == id@ && e.action == action && e.resource == resource@
                &&& e.user_id == opt_view(context.user_id) && e.username == opt_view(context.username)
                &&& e.resource_id == opt_view(context.resource_id) && e.ip_address == opt_view(context.ip_address)
                &&& e.user_agent == opt_view(context.user_agent) && e.status == context.status
                &&& e.details == opt_view(context.details) && e.previous_value == opt_view(context.previous_value)
                &&& e.new_value == opt_view(context.new_value) && e.session_id == opt_view(context.session_id)
            },
    {
        let id = new_uuid_string();
        let now = now_millis_unsigned();
        let entry = AuditLogEntry {
            id: id.clone(),
            timestamp: now,
            user_id: context.user_id,
            username: context.username,
            action,
            resource: owned(resource),
            resource_id: context.resource_id,
            ip_address: context.ip_address,
            user_agent: context.user_agent,
            status: context.status,
            details: context.details,
            previous_value: context.previous_value,
            new_value: context.new_value,
            session_id: context.session_id,
        };
        let ghost e = entry@;
        self.log(entry);
        assert(log_post(*old(self), *self, e));
        id
    }

    /// Copies of the entries that pass `filter`, oldest first.
    pub fn get_entries(&self, filter: AuditLogFilter) -> (v: Vec<AuditLogEntry>)
        ensures
            entries_view(v@) == filtered(self.entry_list(), filter),
    {
        let ghost s = self.entry_list();
        let n = self.entries.len();
        let mut v: Vec<AuditLogEntry> = Vec::new();
        let mut i: usize = 0;
        while i < n
            invariant
                n == self.entries@.len(),
                s == self.entry_list(),
                i <= n,
                entries_view(v@) == filtered(s.subrange(0, i as int), filter),
            decreases n - i,
        {
            proof { assert(s.subrange(0, i + 1).drop_last() =~= s.subrange(0, i as int)); }
            if entry_matches(&self.entries[i], &filter) {
                let ghost before = entries_view(v@);
                v.push(self.entries[i].duplicate());
                assert(entries_view(v@) =~= before.push(s[i as int]));
            }
            i = i + 1;
        }
        proof { assert(s.subrange(0, n as int) =~= s); }
        v
    }

    /// A copy of the oldest entry with id `id`, if any.
    pub fn get_entry(&self, id: &str) -> (r: Option<AuditLogEntry>)
        ensures
            match r {
                Some(e) => exists|i: int| 0 <= i < self.entry_list().len() && #[trigger] self.entry_list()[i].id == id@
                    && e@ == self.entry_list()[i]
                    && forall|j: int| 0 <= j < i ==> #[trigger] self.entry_list()[j].id != id@,
                None => forall|i: int| 0 <= i < self.entry_list().len() ==> #[trigger] self.entry_list()[i].id != id@,
            },
    {
        let n = self.entries.len();
        let mut i: usize = 0;
        while i < n
            invariant
                n == self.entries@.len(),
                i <= n,
                forall|j: int| 0 <= j < i ==> #[trigger] self.entry_list()[j].id != id@,
            decreases n - i,
        {
            if str_eq(self.entries[i].id.as_str(), id) {
                assert(self.entry_list()[i as int].id == id@);
                return Some(self.entries[i].duplicate());
            }
            assert(self.entry_list()[i as int].id != id@);
            i = i + 1;
        }
        None
    }

    /// Copies of the newest `count` entries, newest first.
    pub fn get_recent(&self, count: usize) -> (v: Vec<AuditLogEntry>)
        ensures
            entries_view(v@) == newest(self.entry_list(), count as nat),
    {
        newest_of(&self.entries, count)
    }

    /// Copies of the newest `limit` entries by `user_id`, newest first.
    pub fn get_by_user(&self, user_id: &str, limit: usize) -> (v: Vec<AuditLogEntry>)
        ensures
            entries_view(v@) == newest(by_user(self.entry_list(), user_id@), limit as nat),
    {
        let ghost s = self.entry_list();
        let n = self.entries.len();
        let mut sel: Vec<AuditLogEntry> = Vec::new();
        let mut i: usize = 0;
        while i < n
            invariant
                n == self.entries@.len(),
                s == self.entry_list(),
                i <= n,
                entries_view(sel@) == by_user(s.subrange(0, i as int), user_id@),
            decreases n - i,
        {
            proof { assert(s.subrange(0, i + 1).drop_last() =~= s.subrange(0, i as int)); }
            if opt_str_eq(&self.entries[i].user_id, user_id) {
                let ghost before = entries_view(sel@);
                sel.push(self.entries[i].duplicate());
                assert(entries_view(sel@) =~= before.push(s[i as int]));
            }
            i = i + 1;
        }
        proof { assert(s.subrange(0, n as int) =~= s); }
        newest_of(&sel, limit)
    }

    /// Copies of the newest `limit` entries on exactly `resource`, newest first.
    pub fn get_by_resource(&self, resource: &str, limit: usize) -> (v: Vec<AuditLogEntry>)
        ensures
            entries_view(v@) == newest(by_resource(self.entry_list(), resource@), limit as nat),
    {
        let ghost s = self.entry_list();
        let n = self.entries.len();
        let mut sel: Vec<AuditLogEntry> = Vec::new();
        let mut i: usize = 0;
        while i < n
            invariant
                n == self.entries@.len(),
                s == self.entry_list(),
                i <= n,
                entries_view(sel@) == by_resource(s.subrange(0, i as int), resource@),
            decreases n - i,
        {
            proof { assert(s.subrange(0, i + 1).drop_last() =~= s.subrange(0, i as int)); }
            if str_eq(self.entries[i].resource.as_str(), resource) {
                let ghost before = entries_view(sel@);
                sel.push(self.entries[i].duplicate());
                assert(entries_view(sel@) =~= before.push(s[i as int]));
            }
            i = i + 1;
        }
        proof { assert(s.subrange(0, n as int) =~= s); }
        newest_of(&sel, limit)
    }

    /// Copies of the entries stamped within `start..=end`, oldest first.
    pub fn get_by_date_range(&self, start: u64, end: u64) -> (v: Vec<AuditLogEntry>)
        ensures
            entries_view(v@) == in_range(self.entry_list(), start, end),
    {
        let ghost s = self.entry_list();
        let n = self.entries.len();
        let mut v: Vec<AuditLogEntry> = Vec::new();
        let mut i: usize = 0;
        while i < n
            invariant
                n == self.entries@.len(),
                s == self.entry_list(),
                i <= n,
                entries_view(v@) == in_range(s.subrange(0, i as int), start, end),
            decreases n - i,
        {
            proof { assert(s.subrange(0, i + 1).drop_last() =~= s.subrange(0, i as int)); }
            let t = self.entries[i].timestamp;
            if start <= t && t <= end {
                let ghost before = entries_view(v@);
                v.push(self.entries[i].duplicate());
                assert(entries_view(v@) =~= before.push(s[i as int]));
            }
            i = i + 1;
        }
        proof { assert(s.subrange(0, n as int) =~= s); }
        v
    }

    /// Counts by status, by action name and by user, and the newest entry.
    pub fn get_stats(&self) -> (st: AuditStats)
        ensures
            st.total_entries == self.entry_list().len(),
            st.success_count == status_count(self.entry_list(), AuditStatus::Success),
            st.failure_count == status_count(self.entry_list(), AuditStatus::Failure),
            unique_keys(st.action_counts@),
            forall|k: Seq<char>| #[trigger] has_key(st.action_counts@, k) <==> action_counts(self.entry_list()).dom().contains(k),
            forall|i: int| 0 <= i < st.action_counts@.len() ==>
                #[trigger] st.action_counts@[i].count == action_counts(self.entry_list())[st.action_counts@[i].key@],
            unique_keys(st.user_activity_counts@),
            forall|k: Seq<char>| #[trigger] has_key(st.user_activity_counts@, k) <==> user_counts(self.entry_list()).dom().contains(k),
            forall|i: int| 0 <= i < st.user_activity_counts@.len() ==>
                #[trigger] st.user_activity_counts@[i].count == user_counts(self.entry_list())[st.user_activity_counts@[i].key@],
            match st.last_entry {
                Some(e) => self.entry_list().len() > 0 && e@ == self.entry_list().last(),
                None => self.entry_list().len() == 0,
            },
    {
        let ghost s = self.entry_list();
        let n = self.entries.len();
        let mut success: usize = 0;
        let mut failure: usize = 0;
        let mut actions: Store<CountEntry> = Store::new();
        let mut users: Store<CountEntry> = Store::new();
        let mut i: usize = 0;
        while i < n
            invariant
                n == self.entries@.len(),
                s == self.entry_list(),
                i <= n,
                success == status_count(s.subrange(0, i as int), AuditStatus::Success),
                success <= i,
                failure == status_count(s.subrange(0, i as int), AuditStatus::Failure),
                failure <= i,
                actions.map().dom() == action_counts(s.subrange(0, i as int)).dom(),
                forall|k: Seq<char>| #[trigger] actions.map().dom().contains(k) ==>
                    actions.map()[k].count == action_counts(s.subrange(0, i as int))[k],
                users.map().dom() == user_counts(s.subrange(0, i as int)).dom(),
                forall|k: Seq<char>| #[trigger] users.map().dom().contains(k) ==>
                    users.map()[k].count == user_counts(s.subrange(0, i as int))[k],
            decreases n - i,
        {
            let ghost pre = s.subrange(0, i as int);
            proof {
                assert(s.subrange(0, i + 1).drop_last() =~= pre);
                lemma_action_counts_bound(pre);
                lemma_user_counts_bound(pre);
            }
            let e = &self.entries[i];
            if e.status == AuditStatus::Success {
                success = success + 1;
            }
            if e.status == AuditStatus::Failure {
                failure = failure + 1;
            }
            bump_count(&mut actions, e.action.name());
            match &e.user_id {
                Some(u) => bump_count(&mut users, u.as_str()),
                None => {}
            }
            proof {
                let post = s.subrange(0, i + 1);
                assert(actions.map().dom() =~= action_counts(post).dom());
                assert(users.map().dom() =~= user_counts(post).dom());
            }
            i = i + 1;
        }
        proof { assert(s.subrange(0, n as int) =~= s); }
        actions.facts();
        users.facts();
        let ghost am = actions.map();
        let ghost um = users.map();
        let action_list = actions.into_vec();
        let user_list = users.into_vec();
        proof {
            assert forall|x: int| 0 <= x < action_list@.len() implies
                #[trigger] action_list@[x].count == action_counts(s)[action_list@[x].key@] by {
                assert(am.dom().contains(action_list@[x].key_view()));
            }
            assert forall|x: int| 0 <= x < user_list@.len() implies
                #[trigger] user_list@[x].count == user_counts(s)[user_list@[x].key@] by {
                assert(um.dom().contains(user_list@[x].key_view()));
            }
        }
        let last_entry = if n > 0 { Some(self.entries[n - 1].duplicate()) } else { None };
        AuditStats {
            total_entries: n,
            success_count: success,
            failure_count: failure,
            action_counts: action_list,
            user_activity_counts: user_list,
            last_entry,
        }
    }

    /// Drops the entries stamped at or before `before`; returns how many went.
    pub fn clear_old_logs(&mut self, before: u64) -> (removed: usize)
        ensures
            final(self).entry_list() == later_than(old(self).entry_list(), before),
            removed == old(self).entry_list().len() - later_than(old(self).entry_list(), before).len(),
            final(self).max() == old(self).max(),
            final(self).event_list() == old(self).event_list(),
    {
        let ghost s = self.entry_list();
        let n = self.entries.len();
        let mut kept: Vec<AuditLogEntry> = Vec::new();
        let mut i: usize = 0;
        while i < n
            invariant
                n == self.entries@.len(),
                s == self.entry_list(),
                i <= n,
                entries_view(kept@) == later_than(s.subrange(0, i as int), before),
                kept@.len() <= i,
            decreases n - i,
        {
            proof { assert(s.subrange(0, i + 1).drop_last() =~= s.subrange(0, i as int)); }
            if self.entries[i].timestamp > before {
                let ghost b = entries_view(kept@);
                kept.push(self.entries[i].duplicate());
                assert(entries_view(kept@) =~= b.push(s[i as int]));
            }
            i = i + 1;
        }
        proof { assert(s.subrange(0, n as int) =~= s); }
        let removed = n - kept.len();
        self.entries = kept;
        removed
    }

    /// Sets how many entries are kept, dropping the oldest beyond it.
    pub fn set_max_entries(&mut self, max: usize)
        ensures
            final(self).max() == max,
            final(self).entry_list() == trimmed(old(self).entry_list(), max),
            final(self).event_list() == old(self).event_list(),
    {
        self.max_entries = max;
        let ghost s = self.entry_list();
        while self.entries.len() > max
            invariant
                self.max_entries == max,
                self.event_list() == old(self).event_list(),
                s == old(self).entry_list(),
                s.len() >= self.entries@.len(),
                self.entry_list() == s.subrange(s.len() - self.entries@.len(), s.len() as int),
                self.entries@.len() >= max || self.entries@.len() == s.len(),
            decreases self.entries@.len(),
        {
            let ghost b = self.entry_list();
            let _ = self.entries.remove(0);
            assert(self.entry_list() =~= b.drop_first());
            assert(self.entry_list() =~= s.subrange(s.len() - self.entries@.len(), s.len() as int));
        }
        proof {
            if s.len() <= max {
                assert(self.entry_list() =~= s);
            }
        }
    }

    /// Appends stored entries in order until the log is full.
    pub fn load_entries(&mut self, stored: Vec<AuditLogEntry>)
        ensures
            final(self).entry_list() == old(self).entry_list() + entries_view(stored@).subrange(0,
                if old(self).entry_list().len() >= old(self).max() { 0int }
                else if stored@.len() < old(self).max() - old(self).entry_list().len() { stored@.len() as int }
                else { old(self).max() - old(self).entry_list().len() }),
            final(self).max() == old(self).max(),
            final(self).event_list() == old(self).event_list(),
    {
        let ghost s0 = self.entry_list();
        let ghost sv = entries_view(stored@);
        let n = stored.len();
        let mut i: usize = 0;
        while i < n
            invariant_except_break
                n == stored@.len(),
                sv == entries_view(stored@),
                i <= n,
                self.entry_list() == s0 + sv.subrange(0, i as int),
                self.max_entries == old(self).max_entries,
                self.event_list() == old(self).event_list(),
                s0 == old(self).entry_list(),
                s0.len() >= self.max_entries ==> i == 0,
                s0.len() < self.max_entries ==> i <= self.max_entries - s0.len(),
            ensures
                n == stored@.len(),
                sv == entries_view(stored@),
                self.max_entries == old(self).max_entries,
                self.event_list() == old(self).event_list(),
                self.entry_list() == s0 + sv.subrange(0,
                    if s0.len() >= self.max_entries { 0int }
                    else if n < self.max_entries - s0.len() { n as int }
                    else { self.max_entries - s0.len() }),
            decreases n - i,
        {
            if self.entries.len() >= self.max_entries {
                break;
            }
            let ghost b = self.entry_list();
            let d = stored[i].duplicate();
            self.entries.push(d);
            assert(self.entry_list() =~= b.push(sv[i as int]));
            assert(sv.subrange(0, i + 1) =~= sv.subrange(0, i as int).push(sv[i as int]));
            assert(self.entry_list() =~= s0 + sv.subrange(0, i + 1));
            i = i + 1;
        }
    }
}

impl Default for AuditLogger {
    fn default() -> (l: AuditLogger)
        ensures
            l.entry_list() == Seq::<AuditEntryView>::empty(),
            l.max() == 10000,
            l.event_list() == Seq::<AuditEntryView>::empty(),
    {
        AuditLogger::new()
    }
}

proof fn lemma_action_counts_bound(s: Seq<AuditEntryView>)
    ensures
        forall|k: Seq<char>| #[trigger] action_counts(s).dom().contains(k) ==> action_counts(s)[k] <= s.len(),
    decreases s.len(),
{
    if s.len() > 0 {
        lemma_action_counts_bound(s.drop_last());
        let m = action_counts(s.drop_last());
        assert forall|k: Seq<char>| #[trigger] action_counts(s).dom().contains(k) implies action_counts(s)[k] <= s.len() by {
            if m.dom().contains(k) {
                assert(m[k] <= s.len() - 1);
            }
        }
    }
}

proof fn lemma_user_counts_bound(s: Seq<AuditEntryView>)
    ensures
        forall|k: Seq<char>| #[trigger] user_counts(s).dom().contains(k) ==> user_counts(s)[k] <= s.len(),
    decreases s.len(),
{
    if s.len() > 0 {
        lemma_user_counts_bound(s.drop_last());
        let m = user_counts(s.drop_last());
        assert forall|k: Seq<char>| #[trigger] user_counts(s).dom().contains(k) implies user_counts(s)[k] <= s.len() by {
            if m.dom().contains(k) {
                assert(m[k] <= s.len() - 1);
            }
        }
    }
}

/// A log that keeps at least one entry never grows past its bound.
pub proof fn law_log_stays_bounded(l1: AuditLogger, l2: AuditLogger, e: AuditEntryView)
    requires
        log_post(l1, l2, e),
        l1.max() > 0,
        l1.entry_list().len() <= l1.max(),
    ensures
        l2.entry_list().len() <= l2.max(),
{
}

/// The entry just logged is the newest one read back.
pub proof fn law_logged_entry_is_newest(l1: AuditLogger, l2: AuditLogger, e: AuditEntryView)
    requires
        log_post(l1, l2, e),
    ensures
        newest(l2.entry_list(), 1) == seq![e],
{
    assert(newest(l2.entry_list(), 1) =~= seq![e]);
}

} // verus!
