//! Lockout of IPs after repeated failed RCON logins, with alerts.
//! Times are milliseconds on one clock.
use vstd::prelude::*;
use crate::keyed::{Keyed, Store, unique_keys, has_key};
use crate::text::{owned, u64_to_decimal, decimal};
use crate::clock::now_millis_unsigned;
use crate::security::ddos_protection::{deadline, secs_to_millis, secs_to_ms, window_start, HOUR_MS};

verus! {

/// One day in milliseconds.
pub const DAY_MS: u64 = 86_400_000;

/// The most alerts kept; beyond it the oldest half is dropped.
pub const MAX_ALERTS: usize = 1000;

/// Attempt limits and lockout length.
#[derive(Clone, Copy, Debug)]
pub struct BruteForceConfig {
    pub max_attempts: u32,
    pub lockout_duration_secs: u64,
    pub alert_threshold: u32,
    pub reset_duration_secs: u64,
}

impl BruteForceConfig {
    /// 5 attempts, 900-second lockout, alert from 3 failures, reset after an hour.
    pub open spec fn default_spec() -> BruteForceConfig {
        BruteForceConfig { max_attempts: 5, lockout_duration_secs: 900, alert_threshold: 3, reset_duration_secs: 3600 }
    }

    /// The default configuration.
    pub fn default_config() -> (c: BruteForceConfig)
        ensures
            c == BruteForceConfig::default_spec(),
    {
        BruteForceConfig { max_attempts: 5, lockout_duration_secs: 900, alert_threshold: 3, reset_duration_secs: 3600 }
    }
}

impl Default for BruteForceConfig {
    fn default() -> (c: BruteForceConfig)
        ensures
            c == BruteForceConfig::default_spec(),
    {
        BruteForceConfig::default_config()
    }
}

/// One authentication attempt.
pub struct AttemptInfo {
    pub timestamp: u64,
    pub success: bool,
    pub method: String,
}

/// The plain content of an attempt.
pub struct AttemptView {
    pub timestamp: u64,
    pub success: bool,
    pub method: Seq<char>,
}

impl View for AttemptInfo {
    type V = AttemptView;

    open spec fn view(&self) -> AttemptView {
        AttemptView { timestamp: self.timestamp, success: self.success, method: self.method@ }
    }
}

/// The attempt history of one IP.
pub struct AttemptRecord {
    pub ip: String,
    pub attempts: Vec<AttemptInfo>,
    pub locked_until: Option<u64>,
    pub total_attempts: u32,
    pub successful_auths: u32,
    pub first_attempt: u64,
    pub last_attempt: u64,
}

/// The plain content of an attempt record.
pub struct AttemptRecordView {
    pub ip: Seq<char>,
    pub attempts: Seq<AttemptView>,
    pub locked_until: Option<u64>,
    pub total_attempts: u32,
    pub successful_auths: u32,
    pub first_attempt: u64,
    pub last_attempt: u64,
}

impl View for AttemptRecord {
    type V = AttemptRecordView;

    open spec fn view(&self) -> AttemptRecordView {
        AttemptRecordView {
            ip: self.ip@,
            attempts: self.attempts@.map_values(|a: AttemptInfo| a@),
            locked_until: self.locked_until,
            total_attempts: self.total_attempts,
            successful_auths: self.successful_auths,
            first_attempt: self.first_attempt,
            last_attempt: self.last_attempt,
        }
    }
}

impl Keyed for AttemptRecord {
    open spec fn key_view(&self) -> Seq<char> {
        self.ip@
    }

    fn key_str(&self) -> (r: &str) {
        self.ip.as_str()
    }
}

/// A fresh record for `ip` at `now`.
pub open spec fn fresh_attempts(ip: Seq<char>, now: u64) -> AttemptRecordView {
    AttemptRecordView {
        ip,
        attempts: seq![],
        locked_until: None,
        total_attempts: 0,
        successful_auths: 0,
        first_attempt: now,
        last_attempt: now,
    }
}

/// Locked at `now`: the lock ends later than `now`.
pub open spec fn locked_at(m: AttemptRecordView, now: u64) -> bool {
    m.locked_until matches Some(u) && now < u
}

/// Failed attempts made less than an hour before `now` (strictly after the cutoff).
pub open spec fn failed_since(a: Seq<AttemptView>, cutoff: u64) -> nat
    decreases a.len(),
{
    if a.len() == 0 {
        0
    } else {
        failed_since(a.drop_last(), cutoff) + if !a.last().success && a.last().timestamp > cutoff { 1nat } else { 0nat }
    }
}

/// The failure count used for decisions, as the 32-bit value the record reports.
pub open spec fn recent_failures(m: AttemptRecordView, now: u64) -> u32 {
    failed_since(m.attempts, window_start(now, HOUR_MS)) as u32
}

/// The attempts made strictly after `cutoff`, in order.
pub open spec fn attempts_after(a: Seq<AttemptView>, cutoff: u64) -> Seq<AttemptView>
    decreases a.len(),
{
    if a.len() == 0 {
        seq![]
    } else if a.last().timestamp > cutoff {
        attempts_after(a.drop_last(), cutoff).push(a.last())
    } else {
        attempts_after(a.drop_last(), cutoff)
    }
}

/// The record after an attempt at `now` is noted.
pub open spec fn noted(m: AttemptRecordView, success: bool, method: Seq<char>, now: u64) -> AttemptRecordView {
    AttemptRecordView {
        attempts: m.attempts.push(AttemptView { timestamp: now, success, method }),
        total_attempts: (m.total_attempts + 1) as u32,
        last_attempt: now,
        successful_auths: if success { (m.successful_auths + 1) as u32 } else { m.successful_auths },
        ..m
    }
}

fn copy_attempts(v: &Vec<AttemptInfo>) -> (r: Vec<AttemptInfo>)
    ensures
        r@.map_values(|a: AttemptInfo| a@) == v@.map_values(|a: AttemptInfo| a@),
{
    let n = v.len();
    let mut r: Vec<AttemptInfo> = Vec::new();
    let mut i: usize = 0;
    while i < n
        invariant
            n == v@.len(),
            i <= n,
            r@.len() == i,
            forall|j: int| 0 <= j < i ==> #[trigger] r@[j]@ == v@[j]@,
        decreases n - i,
    {
        let a = &v[i];
        r.push(AttemptInfo { timestamp: a.timestamp, success: a.success, method: a.method.clone() });
        i = i + 1;
    }
    assert(r@.map_values(|a: AttemptInfo| a@) =~= v@.map_values(|a: AttemptInfo| a@));
    r
}

impl AttemptRecord {
    /// A record for `ip` with no attempts, at `now`.
    pub fn new(ip: String, now: u64) -> (r: AttemptRecord)
        ensures
            r@ == fresh_attempts(ip@, now),
    {
        let r = AttemptRecord {
            ip,
            attempts: Vec::new(),
            locked_until: None,
            total_attempts: 0,
            successful_auths: 0,
            first_attempt: now,
            last_attempt: now,
        };
        assert(r@.attempts =~= Seq::<AttemptView>::empty());
        r
    }

    /// Whether the record is locked at `now`.
    pub fn is_locked(&self, now: u64) -> (b: bool)
        ensures
            b == locked_at(self@, now),
    {
        match self.locked_until {
            Some(u) => now < u,
            None => false,
        }
    }

    /// Milliseconds left on the lock, if it ends after `now`.
    pub fn get_remaining_lock_time(&self, now: u64) -> (r: Option<u64>)
        ensures
            r == (if locked_at(self@, now) { Some((self@.locked_until->0 - now) as u64) } else { None::<u64> }),
    {
        match self.locked_until {
            Some(u) => if u > now { Some(u - now) } else { None },
            None => None,
        }
    }

    /// Locks the record for `duration_secs` seconds from `now`.
    pub fn lock(&mut self, duration_secs: u64, now: u64)
        ensures
            final(self)@ == (AttemptRecordView { locked_until: Some(deadline(now, duration_secs)), ..old(self)@ }),
    {
        self.locked_until = Some(now.saturating_add(secs_to_millis(duration_secs)));
    }

    /// Notes an attempt made at `now`.
    pub fn record_attempt(&mut self, success: bool, method: &str, now: u64)
        requires
            old(self).total_attempts < u32::MAX,
            success ==> old(self).successful_auths < u32::MAX,
        ensures
            final(self)@ == noted(old(self)@, success, method@, now),
    {
        let ghost before = self@;
        self.attempts.push(AttemptInfo { timestamp: now, success, method: owned(method) });
        self.total_attempts = self.total_attempts + 1;
        self.last_attempt = now;
        if success {
            self.successful_auths = self.successful_auths + 1;
        }
        assert(self@.attempts =~= before.attempts.push(AttemptView { timestamp: now, success, method: method@ }));
    }

    /// Failed attempts made within the hour before `now`.
    pub fn get_failed_attempts(&self, now: u64) -> (n: u32)
        ensures
            n == recent_failures(self@, now),
    {
        let cutoff = now.saturating_sub(HOUR_MS);
        let len = self.attempts.len();
        let mut c: usize = 0;
        let mut i: usize = 0;
        let ghost a = self@.attempts;
        while i < len
            invariant
                len == self.attempts@.len(),
                a == self@.attempts,
                i <= len,
                c == failed_since(a.subrange(0, i as int), cutoff),
                c <= i,
            decreases len - i,
        {
            proof {
                assert(a.subrange(0, i + 1).drop_last() =~= a.subrange(0, i as int));
                assert(a[i as int] == self.attempts@[i as int]@);
            }
            let at = &self.attempts[i];
            if !at.success && at.timestamp > cutoff {
                c = c + 1;
            }
            i = i + 1;
        }
        assert(a.subrange(0, len as int) =~= a);
        #[verifier::truncate] (c as u32)
    }

    /// Drops attempts older than a day.
    pub fn cleanup_old_attempts(&mut self, now: u64)
        ensures
            final(self)@ == (AttemptRecordView { attempts: attempts_after(old(self)@.attempts, window_start(now, DAY_MS)), ..old(self)@ }),
    {
        let cutoff = now.saturating_sub(DAY_MS);
        let ghost a = self@.attempts;
        let mut kept: Vec<AttemptInfo> = Vec::new();
        let mut all: Vec<AttemptInfo> = Vec::new();
        std::mem::swap(&mut all, &mut self.attempts);
        let len = all.len();
        let mut i: usize = 0;
        while i < len
            invariant
                len == all@.len(),
                a == all@.map_values(|x: AttemptInfo| x@),
                i <= len,
                kept@.map_values(|x: AttemptInfo| x@) == attempts_after(a.subrange(0, i as int), cutoff),
            decreases len - i,
        {
            proof {
                assert(a.subrange(0, i + 1).drop_last() =~= a.subrange(0, i as int));
                assert(a[i as int] == all@[i as int]@);
            }
            let at = &all[i];
            if at.timestamp > cutoff {
                let ghost before = kept@.map_values(|x: AttemptInfo| x@);
                kept.push(AttemptInfo { timestamp: at.timestamp, success: at.success, method: at.method.clone() });
                assert(kept@.map_values(|x: AttemptInfo| x@) =~= before.push(a[i as int]));
            }
            i = i + 1;
        }
        assert(a.subrange(0, len as int) =~= a);
        self.attempts = kept;
    }

    /// A field-by-field copy.
    pub fn duplicate(&self) -> (r: AttemptRecord)
        ensures
            r@ == self@,
    {
        AttemptRecord {
            ip: self.ip.clone(),
            attempts: copy_attempts(&self.attempts),
            locked_until: self.locked_until,
            total_attempts: self.total_attempts,
            successful_auths: self.successful_auths,
            first_attempt: self.first_attempt,
            last_attempt: self.last_attempt,
        }
    }
}

/// Alert severities.
#[derive(Clone, Copy, PartialEq, Eq, Debug)]
pub enum AlertSeverity {
    Low,
    Medium,
    High,
    Critical,
}

/// A brute-force alert.
pub struct BruteForceAlert {
    pub ip: String,
    pub timestamp: u64,
    pub failed_attempts: u32,
    pub action_taken: String,
    pub severity: AlertSeverity,
}

/// The plain content of an alert.
pub struct AlertView {
    pub ip: Seq<char>,
    pub timestamp: u64,
    pub failed_attempts: u32,
    pub action_taken: Seq<char>,
    pub severity: AlertSeverity,
}

impl View for BruteForceAlert {
    type V = AlertView;

    open spec fn view(&self) -> AlertView {
        AlertView {
            ip: self.ip@,
            timestamp: self.timestamp,
            failed_attempts: self.failed_attempts,
            action_taken: self.action_taken@,
            severity: self.severity,
        }
    }
}

/// The alert raised for `ip` with `failed` failures: "locked" and high severity
/// when the IP was locked, "warning" and medium severity otherwise.
pub open spec fn alert_for(ip: Seq<char>, failed: u32, locked: bool, now: u64) -> AlertView {
    AlertView {
        ip,
        timestamp: now,
        failed_attempts: failed,
        action_taken: if locked { "locked"@ } else { "warning"@ },
        severity: if locked { AlertSeverity::High } else { AlertSeverity::Medium },
    }
}

/// The alert list after adding `a`: when it then holds more than 1000 alerts,
/// the oldest 500 are dropped.
pub open spec fn alerts_after(alerts: Seq<AlertView>, a: AlertView) -> Seq<AlertView> {
    let s = alerts.push(a);
    if s.len() > 1000 { s.subrange(500, s.len() as int) } else { s }
}

/// The outcome of an authentication attempt.
pub enum BruteForceResult {
    Success,
    Failed { attempts_remaining: u32, locked: bool },
    Locked { remaining_secs: u64, reason: String },
}

impl BruteForceResult {
    /// Whether the attempt succeeded.
    pub fn is_success(&self) -> (b: bool)
        ensures
            b == (*self is Success),
    {
        match self {
            BruteForceResult::Success => true,
            _ => false,
        }
    }

    /// Whether the IP is locked.
    pub fn is_locked(&self) -> (b: bool)
        ensures
            b == (*self is Locked),
    {
        match self {
            BruteForceResult::Locked { .. } => true,
            _ => false,
        }
    }
}

/// A locked IP and what is known of it.
pub struct LockedIpInfo {
    pub ip: String,
    pub locked_until: Option<u64>,
    pub failed_attempts: u32,
    pub total_attempts: u32,
}

/// Counters over all tracked IPs.
#[derive(Clone, Copy, Debug)]
pub struct BruteForceStats {
    pub tracked_ips: usize,
    pub locked_ips: usize,
    pub total_attempts: u64,
    pub total_failures: u64,
    pub alerts_count: usize,
}

/// Lockout state: one record per IP, configuration and alerts.
pub struct BruteForceGuard {
    records: Store<AttemptRecord>,
    config: BruteForceConfig,
    alerts: Vec<BruteForceAlert>,
}

/// The record of `ip` in `g`, or a fresh one at `now`.
pub open spec fn record_or_fresh(g: BruteForceGuard, ip: Seq<char>, now: u64) -> AttemptRecordView {
    if g.records().dom().contains(ip) { g.records()[ip]@ } else { fresh_attempts(ip, now) }
}

/// The counters of every record have room for one more attempt.
pub open spec fn counters_have_room(g: BruteForceGuard) -> bool {
    forall|k: Seq<char>| #[trigger] g.records().dom().contains(k) ==>
        g.records()[k]@.total_attempts < u32::MAX && g.records()[k]@.successful_auths < u32::MAX
}

/// What recording one attempt from `ip` at `now` does.
pub open spec fn record_attempt_post(
    old: BruteForceGuard, new: BruteForceGuard, ip: Seq<char>, success: bool, method: Seq<char>,
    now: u64, r: BruteForceResult,
) -> bool {
    let before = record_or_fresh(old, ip, now);
    let cfg = old.config_view();
    let m = noted(before, success, method, now);
    let failed = recent_failures(m, now);
    &&& new.config_view() == cfg
    &&& new.records().dom() =~= old.records().dom().insert(ip)
    &&& forall|k: Seq<char>| k != ip && #[trigger] old.records().dom().contains(k) ==> new.records()[k] == old.records()[k]
    &&& if locked_at(before, now) {
        &&& r matches BruteForceResult::Locked { remaining_secs, reason }
            && remaining_secs == ((before.locked_until->0 - now) / 1000) as u64
            && reason@ == "too many failed attempts"@
        &&& new.records()[ip]@ == before
        &&& new.alert_list() == old.alert_list()
    } else if success {
        &&& r is Success
        &&& new.records()[ip]@ == (if failed > 0 && failed < cfg.max_attempts {
            AttemptRecordView { locked_until: None, ..m }
        } else {
            m
        })
        &&& new.alert_list() == old.alert_list()
    } else if failed >= cfg.max_attempts {
        &&& r matches BruteForceResult::Locked { remaining_secs, reason }
            && remaining_secs == cfg.lockout_duration_secs
            && reason@ == "exceeded "@ + decimal(cfg.max_attempts as nat) + " failed attempts"@
        &&& new.records()[ip]@ == (AttemptRecordView { locked_until: Some(deadline(now, cfg.lockout_duration_secs)), ..m })
        &&& new.alert_list() == alerts_after(old.alert_list(), alert_for(ip, failed, true, now))
    } else {
        &&& r == (BruteForceResult::Failed { attempts_remaining: (cfg.max_attempts - failed) as u32, locked: false })
        &&& new.records()[ip]@ == m
        &&& new.alert_list() == if failed >= cfg.alert_threshold {
            alerts_after(old.alert_list(), alert_for(ip, failed, false, now))
        } else {
            old.alert_list()
        }
    }
}

/// What a clean-up at `now` does: attempts older than a day are dropped
/// from every record, then records whose last attempt is older than a day
/// are dropped unless they are locked.
pub open spec fn prune_post(old: BruteForceGuard, new: BruteForceGuard, now: u64) -> bool {
    &&& new.records().dom() == old.records().dom().filter(
        |k: Seq<char>| keeps_attempts(pruned(old.records()[k]@, now), now))
    &&& forall|k: Seq<char>| #[trigger] new.records().dom().contains(k)
        ==> new.records()[k]@ == pruned(old.records()[k]@, now)
    &&& new.config_view() == old.config_view()
    &&& new.alert_list() == old.alert_list()
}

/// Whether `v` lists, in order, the records of `g` locked at `now`: each
/// with its address, its failures within the window and its total attempts.
pub open spec fn locked_list(g: BruteForceGuard, v: Seq<LockedIpInfo>, now: u64) -> bool {
    &&& v.len() == locked_records(g.record_list(), now).len()
    &&& forall|i: int| 0 <= i < v.len() ==> {
        let info = #[trigger] v[i];
        let rec = locked_records(g.record_list(), now)[i];
        &&& info.ip@ == rec.ip@
        &&& info.locked_until == Some(0u64)
        &&& info.failed_attempts == recent_failures(rec@, now)
        &&& info.total_attempts == rec.total_attempts
    }
}

impl BruteForceGuard {
    /// The records, by IP.
    pub closed spec fn records(&self) -> Map<Seq<char>, AttemptRecord> {
        self.records.map()
    }

    /// The records in their order.
    pub closed spec fn record_list(&self) -> Seq<AttemptRecord> {
        self.records.items()
    }

    /// The alerts, oldest first.
    pub closed spec fn alert_list(&self) -> Seq<AlertView> {
        self.alerts@.map_values(|a: BruteForceAlert| a@)
    }

    /// The configuration.
    pub closed spec fn config_view(&self) -> BruteForceConfig {
        self.config
    }

    /// No records, default configuration, no alerts.
    pub fn new() -> (g: BruteForceGuard)
        ensures
            g.records() == Map::<Seq<char>, AttemptRecord>::empty(),
            g.alert_list() == Seq::<AlertView>::empty(),
            g.config_view() == BruteForceConfig::default_spec(),
    {
        let g = BruteForceGuard { records: Store::new(), config: BruteForceConfig::default_config(), alerts: Vec::new() };
        assert(g.alert_list() =~= Seq::<AlertView>::empty());
        g
    }

    fn generate_alert(&mut self, ip: &str, attempts: u32, locked: bool, now: u64)
        ensures
            final(self).alert_list() == alerts_after(old(self).alert_list(), alert_for(ip@, attempts, locked, now)),
            final(self).records() == old(self).records(),
            final(self).config_view() == old(self).config_view(),
    {
        let alert = BruteForceAlert {
            ip: owned(ip),
            timestamp: now,
            failed_attempts: attempts,
            action_taken: if locked { owned("locked") } else { owned("warning") },
            severity: if locked { AlertSeverity::High } else { AlertSeverity::Medium },
        };
        let ghost before = self.alert_list();
        self.alerts.push(alert);
        assert(self.alert_list() =~= before.push(alert_for(ip@, attempts, locked, now)));
        if self.alerts.len() > MAX_ALERTS {
            let ghost s = self.alert_list();
            let mut all: Vec<BruteForceAlert> = Vec::new();
            std::mem::swap(&mut all, &mut self.alerts);
            let rest = all.split_off(500);
            assert(rest@.map_values(|a: BruteForceAlert| a@) =~= s.subrange(500, s.len() as int));
            self.alerts = rest;
        }
    }
}


/// The locked records of `s`, in order.
pub open spec fn locked_records(s: Seq<AttemptRecord>, now: u64) -> Seq<AttemptRecord>
    decreases s.len(),
{
    if s.len() == 0 {
        seq![]
    } else if locked_at(s.last()@, now) {
        locked_records(s.drop_last(), now).push(s.last())
    } else {
        locked_records(s.drop_last(), now)
    }
}

/// The sum of the total-attempt counters of `s`.
pub open spec fn sum_totals(s: Seq<AttemptRecord>) -> int
    decreases s.len(),
{
    if s.len() == 0 { 0 } else { sum_totals(s.drop_last()) + s.last().total_attempts }
}

/// The sum of the recent-failure counts of `s` at `now`.
pub open spec fn sum_failures(s: Seq<AttemptRecord>, now: u64) -> int
    decreases s.len(),
{
    if s.len() == 0 { 0 } else { sum_failures(s.drop_last(), now) + recent_failures(s.last()@, now) }
}

/// A record survives cleanup when its last attempt lies within the last day or it is locked.
pub open spec fn keeps_attempts(m: AttemptRecordView, now: u64) -> bool {
    m.last_attempt > window_start(now, DAY_MS) || locked_at(m, now)
}

/// The record with attempts older than a day dropped.
pub open spec fn pruned(m: AttemptRecordView, now: u64) -> AttemptRecordView {
    AttemptRecordView { attempts: attempts_after(m.attempts, window_start(now, DAY_MS)), ..m }
}

/// Whether an IP may try to authenticate: it has no record or is not locked.
pub open spec fn may_try(g: BruteForceGuard, ip: Seq<char>, now: u64) -> bool {
    !g.records().dom().contains(ip) || !locked_at(g.records()[ip]@, now)
}

proof fn lemma_sum_totals_bound(s: Seq<AttemptRecord>)
    ensures
        0 <= sum_totals(s) <= s.len() * (u32::MAX as int),
    decreases s.len(),
{
    if s.len() > 0 {
        lemma_sum_totals_bound(s.drop_last());
    }
}

proof fn lemma_sum_failures_bound(s: Seq<AttemptRecord>, now: u64)
    ensures
        0 <= sum_failures(s, now) <= s.len() * (u32::MAX as int),
    decreases s.len(),
{
    if s.len() > 0 {
        lemma_sum_failures_bound(s.drop_last(), now);
    }
}

impl BruteForceGuard {
    /// Records one authentication attempt from `ip` at time `now`.
    pub fn record_attempt_at(&mut self, ip: &str, success: bool, method: &str, now: u64) -> (r: BruteForceResult)
        requires
            counters_have_room(*old(self)),
        ensures
            record_attempt_post(*old(self), *final(self), ip@, success, method@, now, r),
    {
        self.records.facts();
        let mut record = match self.records.remove(ip) {
            Some(rec) => rec,
            None => AttemptRecord::new(owned(ip), now),
        };
        if record.is_locked(now) {
            let remaining = match record.get_remaining_lock_time(now) {
                Some(d) => d / 1000,
                None => 0,
            };
            self.records.upsert(record);
            proof {
                assert(old(self).records().remove(ip@).insert(ip@, self.records()[ip@]).dom() =~= old(self).records().dom().insert(ip@));
            }
            return BruteForceResult::Locked { remaining_secs: remaining, reason: owned("too many failed attempts") };
        }
        record.record_attempt(success, method, now);
        let config = self.config;
        if success {
            let f = record.get_failed_attempts(now);
            if f > 0 && f < config.max_attempts {
                record.locked_until = None;
            }
            self.records.upsert(record);
            return BruteForceResult::Success;
        }
        let failed_count = record.get_failed_attempts(now);
        if failed_count >= config.max_attempts {
            record.lock(config.lockout_duration_secs, now);
            self.records.upsert(record);
            self.generate_alert(ip, failed_count, true, now);
            let mut reason = owned("exceeded ");
            reason.append(u64_to_decimal(config.max_attempts as u64).as_str());
            reason.append(" failed attempts");
            return BruteForceResult::Locked { remaining_secs: config.lockout_duration_secs, reason };
        }
        self.records.upsert(record);
        if failed_count >= config.alert_threshold {
            self.generate_alert(ip, failed_count, false, now);
        }
        BruteForceResult::Failed { attempts_remaining: config.max_attempts - failed_count, locked: false }
    }

    /// Records one authentication attempt at the current time.
    pub fn record_attempt(&mut self, ip: &str, success: bool, method: &str) -> (r: BruteForceResult)
        requires
            counters_have_room(*old(self)),
        ensures
            exists|now: u64| record_attempt_post(*old(self), *final(self), ip@, success, method@, now, r),
    {
        let now = now_millis_unsigned();
        self.record_attempt_at(ip, success, method, now)
    }

    /// Whether `ip` may try to authenticate at `now`.
    pub fn check_ip_at(&self, ip: &str, now: u64) -> (b: bool)
        ensures
            b == may_try(*self, ip@, now),
    {
        match self.records.get(ip) {
            Some(rec) => !rec.is_locked(now),
            None => true,
        }
    }

    /// Whether `ip` may try to authenticate now.
    pub fn check_ip(&self, ip: &str) -> (b: bool)
        ensures
            exists|now: u64| b == may_try(*self, ip@, now),
    {
        let now = now_millis_unsigned();
        self.check_ip_at(ip, now)
    }

    /// Lifts the lock of `ip` and forgets its attempts; an error when `ip` has no record.
    pub fn unlock_ip(&mut self, ip: &str) -> (r: Result<(), String>)
        ensures
            final(self).config_view() == old(self).config_view(),
            final(self).alert_list() == old(self).alert_list(),
            final(self).records().dom() == old(self).records().dom(),
            forall|k: Seq<char>| k != ip@ && #[trigger] old(self).records().dom().contains(k)
                ==> final(self).records()[k] == old(self).records()[k],
            if old(self).records().dom().contains(ip@) {
                &&& r is Ok
                &&& final(self).records()[ip@]@ == (AttemptRecordView {
                    locked_until: None, attempts: seq![], ..old(self).records()[ip@]@ })
            } else {
                r matches Err(e) && e@ == "IP not found in records"@
            },
    {
        match self.records.remove(ip) {
            Some(rec) => {
                let mut rec = rec;
                rec.locked_until = None;
                rec.attempts = Vec::new();
                assert(rec@.attempts =~= Seq::<AttemptView>::empty());
                self.records.upsert(rec);
                proof {
                    assert(old(self).records().remove(ip@).insert(ip@, self.records()[ip@]).dom() =~= old(self).records().dom());
                }
                Ok(())
            }
            None => {
                proof { assert(old(self).records().remove(ip@) =~= old(self).records()); }
                Err(owned("IP not found in records"))
            }
        }
    }

    /// Lifts every lock.
    pub fn unlock_all(&mut self)
        ensures
            final(self).config_view() == old(self).config_view(),
            final(self).alert_list() == old(self).alert_list(),
            final(self).records().dom() == old(self).records().dom(),
            forall|k: Seq<char>| #[trigger] final(self).records().dom().contains(k)
                ==> final(self).records()[k]@ == (AttemptRecordView { locked_until: None, ..old(self).records()[k]@ }),
    {
        let mut old_records: Store<AttemptRecord> = Store::new();
        std::mem::swap(&mut old_records, &mut self.records);
        old_records.facts();
        let mut fresh: Store<AttemptRecord> = Store::new();
        let items = old_records.as_vec();
        let n = items.len();
        let mut i: usize = 0;
        while i < n
            invariant
                n == items@.len(),
                items@ == old_records.items(),
                old_records.map() == old(self).records(),
                unique_keys(items@),
                forall|j: int| 0 <= j < items@.len() ==> #[trigger] old_records.map().dom().contains(items@[j].key_view())
                    && old_records.map()[items@[j].key_view()] == items@[j],
                forall|k: Seq<char>| #[trigger] old_records.map().dom().contains(k) <==> has_key(items@, k),
                i <= n,
                forall|k: Seq<char>| #[trigger] fresh.map().dom().contains(k) <==> has_key(items@.subrange(0, i as int), k),
                forall|k: Seq<char>| #[trigger] fresh.map().dom().contains(k)
                    ==> fresh.map()[k]@ == (AttemptRecordView { locked_until: None, ..old_records.map()[k]@ }),
            decreases n - i,
        {
            let mut rec = items[i].duplicate();
            rec.locked_until = None;
            proof {
                lemma_has_key_step(items@, i as int);
                let k = items@[i as int].key_view();
                assert(old_records.map()[k] == items@[i as int]);
                assert(rec@ == (AttemptRecordView { locked_until: None, ..old_records.map()[k]@ }));
            }
            fresh.upsert(rec);
            i = i + 1;
        }
        proof {
            assert(items@.subrange(0, n as int) =~= items@);
            assert(fresh.map().dom() =~= old(self).records().dom());
        }
        self.records = fresh;
    }

    /// Forgets `ip`.
    pub fn remove_ip(&mut self, ip: &str)
        ensures
            final(self).records() == old(self).records().remove(ip@),
            final(self).config_view() == old(self).config_view(),
            final(self).alert_list() == old(self).alert_list(),
    {
        let _ = self.records.remove(ip);
    }

    /// A copy of the record of `ip`, if any.
    pub fn get_record(&self, ip: &str) -> (r: Option<AttemptRecord>)
        ensures
            match r {
                Some(rec) => self.records().dom().contains(ip@) && rec@ == self.records()[ip@]@,
                None => !self.records().dom().contains(ip@),
            },
    {
        match self.records.get(ip) {
            Some(rec) => Some(rec.duplicate()),
            None => None,
        }
    }

    /// Copies of all records, in order.
    pub fn get_all_records(&self) -> (v: Vec<AttemptRecord>)
        ensures
            v@.len() == self.record_list().len(),
            forall|i: int| 0 <= i < v@.len() ==> #[trigger] v@[i]@ == self.record_list()[i]@,
    {
        let items = self.records.as_vec();
        let n = items.len();
        let mut v: Vec<AttemptRecord> = Vec::new();
        let mut i: usize = 0;
        while i < n
            invariant
                n == items@.len(),
                items@ == self.record_list(),
                i <= n,
                v@.len() == i,
                forall|j: int| 0 <= j < i ==> #[trigger] v@[j]@ == items@[j]@,
            decreases n - i,
        {
            v.push(items[i].duplicate());
            i = i + 1;
        }
        v
    }

    /// The IPs locked at `now`, in record order, with their counters.
    pub fn get_locked_ips_at(&self, now: u64) -> (v: Vec<LockedIpInfo>)
        ensures
            locked_list(*self, v@, now),
    {
        let items = self.records.as_vec();
        let n = items.len();
        let mut v: Vec<LockedIpInfo> = Vec::new();
        let mut i: usize = 0;
        while i < n
            invariant
                n == items@.len(),
                items@ == self.record_list(),
                i <= n,
                v@.len() == locked_records(items@.subrange(0, i as int), now).len(),
                forall|j: int| 0 <= j < v@.len() ==> {
                    let info = #[trigger] v@[j];
                    let rec = locked_records(items@.subrange(0, i as int), now)[j];
                    &&& info.ip@ == rec.ip@
                    &&& info.locked_until == Some(0u64)
                    &&& info.failed_attempts == recent_failures(rec@, now)
                    &&& info.total_attempts == rec.total_attempts
                },
            decreases n - i,
        {
            proof { assert(items@.subrange(0, i + 1).drop_last() =~= items@.subrange(0, i as int)); }
            let rec = &items[i];
            if rec.is_locked(now) {
                let until = match rec.locked_until { Some(u) => u, None => now };
                v.push(LockedIpInfo {
                    ip: rec.ip.clone(),
                    locked_until: Some(now.saturating_sub(until) / 1000),
                    failed_attempts: rec.get_failed_attempts(now),
                    total_attempts: rec.total_attempts,
                });
            }
            i = i + 1;
        }
        assert(items@.subrange(0, n as int) =~= items@);
        v
    }

    /// The alerts, oldest first.
    pub fn get_alerts(&self) -> (v: Vec<BruteForceAlert>)
        ensures
            v@.map_values(|a: BruteForceAlert| a@) == self.alert_list(),
    {
        let n = self.alerts.len();
        let mut v: Vec<BruteForceAlert> = Vec::new();
        let mut i: usize = 0;
        while i < n
            invariant
                n == self.alerts@.len(),
                i <= n,
                v@.len() == i,
                forall|j: int| 0 <= j < i ==> #[trigger] v@[j]@ == self.alerts@[j]@,
            decreases n - i,
        {
            let a = &self.alerts[i];
            v.push(BruteForceAlert {
                ip: a.ip.clone(),
                timestamp: a.timestamp,
                failed_attempts: a.failed_attempts,
                action_taken: a.action_taken.clone(),
                severity: a.severity,
            });
            i = i + 1;
        }
        assert(v@.map_values(|a: BruteForceAlert| a@) =~= self.alert_list());
        v
    }

    /// Drops every alert.
    pub fn clear_alerts(&mut self)
        ensures
            final(self).alert_list() == Seq::<AlertView>::empty(),
            final(self).records() == old(self).records(),
            final(self).config_view() == old(self).config_view(),
    {
        self.alerts = Vec::new();
        assert(self.alert_list() =~= Seq::<AlertView>::empty());
    }

    /// Counters at `now`.
    pub fn get_stats_at(&self, now: u64) -> (s: BruteForceStats)
        requires
            self.record_list().len() <= u32::MAX,
        ensures
            s.tracked_ips == self.record_list().len(),
            s.locked_ips == locked_records(self.record_list(), now).len(),
            s.total_attempts == sum_totals(self.record_list()),
            s.total_failures == sum_failures(self.record_list(), now),
            s.alerts_count == self.alert_list().len(),
    {
        let items = self.records.as_vec();
        let n = items.len();
        let mut locked: usize = 0;
        let mut total: u64 = 0;
        let mut failures: u64 = 0;
        let mut i: usize = 0;
        while i < n
            invariant
                n == items@.len(),
                n <= u32::MAX,
                items@ == self.record_list(),
                i <= n,
                locked == locked_records(items@.subrange(0, i as int), now).len(),
                locked <= i,
                total == sum_totals(items@.subrange(0, i as int)),
                failures == sum_failures(items@.subrange(0, i as int), now),
            decreases n - i,
        {
            proof {
                assert(items@.subrange(0, i + 1).drop_last() =~= items@.subrange(0, i as int));
                lemma_sum_totals_bound(items@.subrange(0, i + 1));
                lemma_sum_failures_bound(items@.subrange(0, i + 1), now);
                assert((i + 1) * (u32::MAX as int) <= (u32::MAX as int) * (u32::MAX as int)) by (nonlinear_arith)
                    requires i + 1 <= u32::MAX;
            }
            let rec = &items[i];
            if rec.is_locked(now) {
                locked = locked + 1;
            }
            total = total + rec.total_attempts as u64;
            failures = failures + rec.get_failed_attempts(now) as u64;
            i = i + 1;
        }
        assert(items@.subrange(0, n as int) =~= items@);
        BruteForceStats {
            tracked_ips: n,
            locked_ips: locked,
            total_attempts: total,
            total_failures: failures,
            alerts_count: self.alerts.len(),
        }
    }

    /// Replaces the configuration.
    pub fn set_config(&mut self, config: BruteForceConfig)
        ensures
            final(self).config_view() == config,
            final(self).records() == old(self).records(),
            final(self).alert_list() == old(self).alert_list(),
    {
        self.config = config;
    }

    /// The configuration.
    pub fn get_config(&self) -> (c: BruteForceConfig)
        ensures
            c == self.config_view(),
    {
        self.config
    }

    /// Drops attempts older than a day from every record, then drops the records
    /// whose last attempt is older than a day unless they are locked.
    pub fn cleanup_old_records_at(&mut self, now: u64)
        ensures
            prune_post(*old(self), *final(self), now),
    {
        let mut old_records: Store<AttemptRecord> = Store::new();
        std::mem::swap(&mut old_records, &mut self.records);
        old_records.facts();
        let mut fresh: Store<AttemptRecord> = Store::new();
        let items = old_records.as_vec();
        let n = items.len();
        let mut i: usize = 0;
        while i < n
            invariant
                n == items@.len(),
                items@ == old_records.items(),
                old_records.map() == old(self).records(),
                unique_keys(items@),
                forall|j: int| 0 <= j < items@.len() ==> #[trigger] old_records.map().dom().contains(items@[j].key_view())
                    && old_records.map()[items@[j].key_view()] == items@[j],
                forall|k: Seq<char>| #[trigger] old_records.map().dom().contains(k) <==> has_key(items@, k),
                i <= n,
                forall|k: Seq<char>| #[trigger] fresh.map().dom().contains(k) <==>
                    (has_key(items@.subrange(0, i as int), k) && keeps_attempts(pruned(old_records.map()[k]@, now), now)),
                forall|k: Seq<char>| #[trigger] fresh.map().dom().contains(k)
                    ==> fresh.map()[k]@ == pruned(old_records.map()[k]@, now),
            decreases n - i,
        {
            let mut rec = items[i].duplicate();
            rec.cleanup_old_attempts(now);
            let keep = rec.last_attempt > now.saturating_sub(DAY_MS) || rec.is_locked(now);
            proof {
                lemma_has_key_step(items@, i as int);
                let k = items@[i as int].key_view();
                assert(old_records.map()[k] == items@[i as int]);
                assert(rec@ == pruned(old_records.map()[k]@, now));
                assert(keep == keeps_attempts(rec@, now));
            }
            if keep {
                fresh.upsert(rec);
            }
            i = i + 1;
        }
        proof {
            assert(items@.subrange(0, n as int) =~= items@);
            assert(fresh.map().dom() =~= old(self).records().dom().filter(
                |k: Seq<char>| keeps_attempts(pruned(old(self).records()[k]@, now), now)));
        }
        self.records = fresh;
    }
}

impl BruteForceGuard {
    /// The IPs locked now.
    pub fn get_locked_ips(&self) -> (v: Vec<LockedIpInfo>)
        ensures
            exists|now: u64| locked_list(*self, v@, now),
    {
        let now = now_millis_unsigned();
        self.get_locked_ips_at(now)
    }

    /// Counters now.
    pub fn get_stats(&self) -> (s: BruteForceStats)
        requires
            self.record_list().len() <= u32::MAX,
        ensures
            s.tracked_ips == self.record_list().len(),
            s.total_attempts == sum_totals(self.record_list()),
            s.alerts_count == self.alert_list().len(),
    {
        let now = now_millis_unsigned();
        self.get_stats_at(now)
    }

    /// Cleanup at the current time.
    pub fn cleanup_old_records(&mut self)
        ensures
            exists|now: u64| prune_post(*old(self), *final(self), now),
            final(self).records().dom().subset_of(old(self).records().dom()),
            final(self).config_view() == old(self).config_view(),
            final(self).alert_list() == old(self).alert_list(),
    {
        let now = now_millis_unsigned();
        self.cleanup_old_records_at(now);
    }
}

/// Extending a prefix by one record adds exactly that record's key.
pub proof fn lemma_has_key_step<V: Keyed>(s: Seq<V>, i: int)
    requires
        0 <= i < s.len(),
    ensures
        forall|k: Seq<char>| has_key(s.subrange(0, i + 1), k) <==> (has_key(s.subrange(0, i), k) || k == s[i].key_view()),
{
    assert forall|k: Seq<char>| has_key(s.subrange(0, i + 1), k) <==> (has_key(s.subrange(0, i), k) || k == s[i].key_view()) by {
        if has_key(s.subrange(0, i + 1), k) {
            let j = choose|j: int| 0 <= j < i + 1 && #[trigger] s.subrange(0, i + 1)[j].key_view() == k;
            if j < i {
                assert(s.subrange(0, i)[j].key_view() == k);
            }
        }
        if has_key(s.subrange(0, i), k) {
            let j = choose|j: int| 0 <= j < i && #[trigger] s.subrange(0, i)[j].key_view() == k;
            assert(s.subrange(0, i + 1)[j].key_view() == k);
        }
        if k == s[i].key_view() {
            assert(s.subrange(0, i + 1)[i].key_view() == k);
        }
    }
}

/// An IP whose failed attempt is answered `Locked` may not try again before the lockout ends.
pub proof fn law_lockout_refuses_until_expiry(
    g1: BruteForceGuard, g2: BruteForceGuard, ip: Seq<char>, method: Seq<char>, t1: u64, t2: u64, r: BruteForceResult,
)
    requires
        record_attempt_post(g1, g2, ip, false, method, t1, r),
        r is Locked,
        t1 <= t2 < deadline(t1, g1.config_view().lockout_duration_secs),
        !locked_at(record_or_fresh(g1, ip, t1), t1),
    ensures
        !may_try(g2, ip, t2),
{
    assert(g2.records().dom().contains(ip));
}

/// The failures that count against an IP are exactly its failed attempts made
/// strictly after the cutoff (an hour before now): older ones never count.
pub proof fn law_only_recent_failures_count(a: Seq<AttemptView>, cutoff: u64)
    ensures
        failed_since(a, cutoff) == a.filter(|x: AttemptView| !x.success && x.timestamp > cutoff).len(),
        failed_since(a, cutoff) == failed_since(a.filter(|x: AttemptView| x.timestamp > cutoff), cutoff),
        (forall|i: int| 0 <= i < a.len() ==> (#[trigger] a[i]).timestamp <= cutoff) ==> failed_since(a, cutoff) == 0,
    decreases a.len(),
{
    reveal(Seq::filter);
    if a.len() > 0 {
        law_only_recent_failures_count(a.drop_last(), cutoff);
        let f = a.filter(|x: AttemptView| x.timestamp > cutoff);
        let g = a.drop_last().filter(|x: AttemptView| x.timestamp > cutoff);
        if a.last().timestamp > cutoff {
            assert(f == g.push(a.last()));
            assert(f.drop_last() =~= g);
        } else {
            assert(f == g);
        }
        if forall|i: int| 0 <= i < a.len() ==> (#[trigger] a[i]).timestamp <= cutoff {
            assert forall|i: int| 0 <= i < a.drop_last().len() implies (#[trigger] a.drop_last()[i]).timestamp <= cutoff by {
                assert(a.drop_last()[i] == a[i]);
            }
            assert(a[a.len() - 1] == a.last());
        }
    }
}

/// A failed attempt from an IP that is not locked, whose earlier failures were
/// all made an hour or more ago, counts as the first failure: it is answered
/// `Failed` with one attempt fewer than the maximum left, and nothing is locked.
pub proof fn law_stale_failures_are_forgotten(
    g1: BruteForceGuard, g2: BruteForceGuard, ip: Seq<char>, method: Seq<char>, now: u64, r: BruteForceResult,
)
    requires
        record_attempt_post(g1, g2, ip, false, method, now, r),
        now > 0,
        g1.config_view().max_attempts > 1,
        !locked_at(record_or_fresh(g1, ip, now), now),
        forall|i: int| 0 <= i < record_or_fresh(g1, ip, now).attempts.len() ==> {
            let x = #[trigger] record_or_fresh(g1, ip, now).attempts[i];
            x.success || x.timestamp <= now.saturating_sub(HOUR_MS)
        },
    ensures
        r == (BruteForceResult::Failed { attempts_remaining: (g1.config_view().max_attempts - 1) as u32, locked: false }),
        g2.records()[ip]@.locked_until == record_or_fresh(g1, ip, now).locked_until,
{
    let before = record_or_fresh(g1, ip, now);
    let cutoff = window_start(now, HOUR_MS);
    lemma_no_recent_failures(before.attempts, cutoff);
    let m = noted(before, false, method, now);
    assert(m.attempts.drop_last() == before.attempts);
    assert(failed_since(m.attempts, cutoff) == 1);
}

proof fn lemma_no_recent_failures(a: Seq<AttemptView>, cutoff: u64)
    requires
        forall|i: int| 0 <= i < a.len() ==> (#[trigger] a[i]).success || a[i].timestamp <= cutoff,
    ensures
        failed_since(a, cutoff) == 0,
    decreases a.len(),
{
    if a.len() > 0 {
        assert forall|i: int| 0 <= i < a.drop_last().len() implies
            (#[trigger] a.drop_last()[i]).success || a.drop_last()[i].timestamp <= cutoff by {
            assert(a.drop_last()[i] == a[i]);
        }
        lemma_no_recent_failures(a.drop_last(), cutoff);
        assert(a[a.len() - 1] == a.last());
    }
}

/// A failed attempt from an IP that is not locked counts itself and the IP's
/// failed attempts of the last hour: when that count reaches the maximum the
/// IP is locked for the lockout time and the answer is `Locked`; below it the
/// answer is `Failed` with the attempts left before the maximum.
pub proof fn law_failed_attempt_counts_last_hour(
    g1: BruteForceGuard, g2: BruteForceGuard, ip: Seq<char>, method: Seq<char>, now: u64, r: BruteForceResult,
)
    requires
        record_attempt_post(g1, g2, ip, false, method, now, r),
        now > 0,
        !locked_at(record_or_fresh(g1, ip, now), now),
        record_or_fresh(g1, ip, now).attempts.len() < u32::MAX,
    ensures
        ({
            let cfg = g1.config_view();
            let f = record_or_fresh(g1, ip, now).attempts.filter(
                |x: AttemptView| !x.success && x.timestamp > now.saturating_sub(HOUR_MS)).len() + 1;
            if f >= cfg.max_attempts {
                &&& r matches BruteForceResult::Locked { remaining_secs, .. } && remaining_secs == cfg.lockout_duration_secs
                &&& g2.records()[ip]@.locked_until == Some(now.saturating_add(secs_to_ms(cfg.lockout_duration_secs)))
            } else {
                &&& r == (BruteForceResult::Failed { attempts_remaining: (cfg.max_attempts - f) as u32, locked: false })
                &&& g2.records()[ip]@.locked_until == record_or_fresh(g1, ip, now).locked_until
            }
        }),
{
    let before = record_or_fresh(g1, ip, now);
    let cutoff = window_start(now, HOUR_MS);
    law_only_recent_failures_count(before.attempts, cutoff);
    before.attempts.lemma_filter_len(|x: AttemptView| !x.success && x.timestamp > cutoff);
    let m = noted(before, false, method, now);
    assert(m.attempts.drop_last() == before.attempts);
    assert(failed_since(m.attempts, cutoff) == failed_since(before.attempts, cutoff) + 1);
}

} // verus!
