//! Per-IP request rate limiting with per-minute, per-hour and burst limits.
//! Times are milliseconds on one clock; every decision takes the current time.
use vstd::prelude::*;
use crate::keyed::{Keyed, Store, unique_keys, has_key};
use crate::text::{copy_vec, owned};
use crate::clock::now_millis_unsigned;

verus! {

/// One minute in milliseconds.
pub const MINUTE_MS: u64 = 60_000;
/// One hour in milliseconds.
pub const HOUR_MS: u64 = 3_600_000;
/// The burst window in milliseconds.
pub const BURST_WINDOW_MS: u64 = 10_000;

/// Limits and block length.
#[derive(Clone, Copy, Debug)]
pub struct RateLimitConfig {
    pub requests_per_minute: u32,
    pub requests_per_hour: u32,
    pub burst_size: u32,
    pub block_duration_secs: u64,
    pub cleanup_interval_secs: u64,
}

impl RateLimitConfig {
    /// 60 per minute, 1000 per hour, bursts of 10, 300-second blocks, cleanup every 60 seconds.
    pub fn default_config() -> (c: RateLimitConfig)
        ensures
            c.requests_per_minute == 60 && c.requests_per_hour == 1000 && c.burst_size == 10
                && c.block_duration_secs == 300 && c.cleanup_interval_secs == 60,
    {
        RateLimitConfig {
            requests_per_minute: 60,
            requests_per_hour: 1000,
            burst_size: 10,
            block_duration_secs: 300,
            cleanup_interval_secs: 60,
        }
    }
}

impl Default for RateLimitConfig {
    fn default() -> (c: RateLimitConfig)
        ensures
            c.requests_per_minute == 60 && c.requests_per_hour == 1000 && c.burst_size == 10
                && c.block_duration_secs == 300 && c.cleanup_interval_secs == 60,
    {
        RateLimitConfig::default_config()
    }
}

/// `secs` seconds in milliseconds, saturating at `u64::MAX`.
pub open spec fn secs_to_ms(secs: u64) -> u64 {
    if secs > u64::MAX / 1000 { u64::MAX } else { (secs * 1000) as u64 }
}

/// `secs` seconds in milliseconds, saturating at `u64::MAX`.
pub fn secs_to_millis(secs: u64) -> (ms: u64)
    ensures
        ms == secs_to_ms(secs),
{
    if secs > u64::MAX / 1000 { u64::MAX } else { secs * 1000 }
}

/// The time `secs` seconds after `now` (saturating at the end of the clock).
pub open spec fn deadline(now: u64, secs: u64) -> u64 {
    now.saturating_add(secs_to_ms(secs))
}

/// The earliest time still inside a window of `width` ending at `now`, exclusive.
pub open spec fn window_start(now: u64, width: u64) -> u64 {
    now.saturating_sub(width)
}

/// The timestamps later than `cutoff`, in order.
pub open spec fn later_than(ts: Seq<u64>, cutoff: u64) -> Seq<u64>
    decreases ts.len(),
{
    if ts.len() == 0 {
        seq![]
    } else if ts.last() > cutoff {
        later_than(ts.drop_last(), cutoff).push(ts.last())
    } else {
        later_than(ts.drop_last(), cutoff)
    }
}

/// How many timestamps lie less than `width` before `now` (a timestamp after
/// `now` counts as zero time ago).
pub open spec fn count_younger(ts: Seq<u64>, now: u64, width: u64) -> nat
    decreases ts.len(),
{
    if ts.len() == 0 {
        0
    } else {
        count_younger(ts.drop_last(), now, width) + if now.saturating_sub(ts.last()) < width { 1nat } else { 0nat }
    }
}

/// The request history of one IP.
pub struct RequestRecord {
    pub ip: String,
    pub minute_count: u32,
    pub hour_count: u32,
    pub minute_timestamps: Vec<u64>,
    pub hour_timestamps: Vec<u64>,
    pub blocked_until: Option<u64>,
    pub first_seen: u64,
    pub last_seen: u64,
}

/// The plain content of a request record.
pub struct RecordModel {
    pub ip: Seq<char>,
    pub minute_count: u32,
    pub hour_count: u32,
    pub minute_timestamps: Seq<u64>,
    pub hour_timestamps: Seq<u64>,
    pub blocked_until: Option<u64>,
    pub first_seen: u64,
    pub last_seen: u64,
}

impl View for RequestRecord {
    type V = RecordModel;

    open spec fn view(&self) -> RecordModel {
        RecordModel {
            ip: self.ip@,
            minute_count: self.minute_count,
            hour_count: self.hour_count,
            minute_timestamps: self.minute_timestamps@,
            hour_timestamps: self.hour_timestamps@,
            blocked_until: self.blocked_until,
            first_seen: self.first_seen,
            last_seen: self.last_seen,
        }
    }
}

impl Keyed for RequestRecord {
    open spec fn key_view(&self) -> Seq<char> {
        self.ip@
    }

    fn key_str(&self) -> (r: &str) {
        self.ip.as_str()
    }
}

/// A record is blocked at `now` when its block ends later than `now`.
pub open spec fn blocked_at(m: RecordModel, now: u64) -> bool {
    m.blocked_until matches Some(u) && now < u
}

/// The record with its windows trimmed to the last minute and the last hour,
/// and its counters set to the window sizes.
pub open spec fn trimmed(m: RecordModel, now: u64) -> RecordModel {
    let mt = later_than(m.minute_timestamps, window_start(now, MINUTE_MS));
    let ht = later_than(m.hour_timestamps, window_start(now, HOUR_MS));
    RecordModel {
        minute_timestamps: mt,
        hour_timestamps: ht,
        minute_count: mt.len() as u32,
        hour_count: ht.len() as u32,
        ..m
    }
}

/// The trimmed record with a request at `now` added.
pub open spec fn admitted(m: RecordModel, now: u64) -> RecordModel {
    let t = trimmed(m, now);
    RecordModel {
        minute_timestamps: t.minute_timestamps.push(now),
        hour_timestamps: t.hour_timestamps.push(now),
        minute_count: (t.minute_count + 1) as u32,
        hour_count: (t.hour_count + 1) as u32,
        last_seen: now,
        ..t
    }
}

/// Which limit, if any, a record that has just admitted a request exceeds.
pub enum LimitHit {
    Minute,
    Hour,
    Burst { recent: nat },
    Within,
}

/// The first limit exceeded, checked in the order minute, hour, burst.
pub open spec fn limit_hit(m: RecordModel, cfg: RateLimitConfig, now: u64) -> LimitHit {
    if m.minute_count > cfg.requests_per_minute {
        LimitHit::Minute
    } else if m.hour_count > cfg.requests_per_hour {
        LimitHit::Hour
    } else if m.minute_timestamps.len() as u32 > cfg.burst_size
        && count_younger(m.minute_timestamps, now, BURST_WINDOW_MS) as u32 > cfg.burst_size {
        LimitHit::Burst { recent: count_younger(m.minute_timestamps, now, BURST_WINDOW_MS) }
    } else {
        LimitHit::Within
    }
}

/// A fresh record for `ip` first seen at `now`.
pub open spec fn fresh_record(ip: Seq<char>, now: u64) -> RecordModel {
    RecordModel {
        ip,
        minute_count: 0,
        hour_count: 0,
        minute_timestamps: seq![],
        hour_timestamps: seq![],
        blocked_until: None,
        first_seen: now,
        last_seen: now,
    }
}

/// The windows of a record are small enough that admitting one more request
/// cannot overflow its 32-bit counters.
pub open spec fn has_room(m: RecordModel) -> bool {
    m.minute_timestamps.len() < u32::MAX && m.hour_timestamps.len() < u32::MAX
}

proof fn lemma_later_than_len(ts: Seq<u64>, cutoff: u64)
    ensures
        later_than(ts, cutoff).len() <= ts.len(),
    decreases ts.len(),
{
    if ts.len() > 0 {
        lemma_later_than_len(ts.drop_last(), cutoff);
    }
}

fn retain_later(ts: &Vec<u64>, cutoff: u64) -> (r: Vec<u64>)
    ensures
        r@ == later_than(ts@, cutoff),
        r@.len() <= ts@.len(),
{
    let n = ts.len();
    let mut r: Vec<u64> = Vec::new();
    let mut i: usize = 0;
    while i < n
        invariant
            n == ts@.len(),
            i <= n,
            r@ == later_than(ts@.subrange(0, i as int), cutoff),
            r@.len() <= i,
        decreases n - i,
    {
        proof {
            assert(ts@.subrange(0, i + 1).drop_last() =~= ts@.subrange(0, i as int));
        }
        if ts[i] > cutoff {
            r.push(ts[i]);
        }
        i = i + 1;
    }
    assert(ts@.subrange(0, n as int) =~= ts@);
    r
}

fn count_recent(ts: &Vec<u64>, now: u64, width: u64) -> (c: usize)
    ensures
        c == count_younger(ts@, now, width),
{
    let n = ts.len();
    let mut c: usize = 0;
    let mut i: usize = 0;
    while i < n
        invariant
            n == ts@.len(),
            i <= n,
            c == count_younger(ts@.subrange(0, i as int), now, width),
            c <= i,
        decreases n - i,
    {
        proof {
            assert(ts@.subrange(0, i + 1).drop_last() =~= ts@.subrange(0, i as int));
        }
        if now.saturating_sub(ts[i]) < width {
            c = c + 1;
        }
        i = i + 1;
    }
    assert(ts@.subrange(0, n as int) =~= ts@);
    c
}

impl RequestRecord {
    /// A record for `ip` with no requests, first and last seen at `now`.
    pub fn new(ip: String, now: u64) -> (r: RequestRecord)
        ensures
            r@ == fresh_record(ip@, now),
    {
        RequestRecord {
            ip,
            minute_count: 0,
            hour_count: 0,
            minute_timestamps: Vec::new(),
            hour_timestamps: Vec::new(),
            blocked_until: None,
            first_seen: now,
            last_seen: now,
        }
    }

    /// Whether the record is blocked at `now`.
    pub fn is_blocked(&self, now: u64) -> (b: bool)
        ensures
            b == blocked_at(self@, now),
    {
        match self.blocked_until {
            Some(until) => now < until,
            None => false,
        }
    }

    /// Blocks the record for `duration_secs` seconds from `now`.
    pub fn block(&mut self, duration_secs: u64, now: u64)
        ensures
            final(self)@ == (RecordModel { blocked_until: Some(deadline(now, duration_secs)), ..old(self)@ }),
    {
        self.blocked_until = Some(now.saturating_add(secs_to_millis(duration_secs)));
    }

    /// Drops timestamps older than a minute (minute window) or an hour (hour
    /// window) and resets the counters to the window sizes.
    pub fn cleanup_old_timestamps(&mut self, now: u64)
        ensures
            final(self)@ == trimmed(old(self)@, now),
    {
        let mt = retain_later(&self.minute_timestamps, now.saturating_sub(MINUTE_MS));
        let ht = retain_later(&self.hour_timestamps, now.saturating_sub(HOUR_MS));
        self.minute_count = #[verifier::truncate] (mt.len() as u32);
        self.hour_count = #[verifier::truncate] (ht.len() as u32);
        self.minute_timestamps = mt;
        self.hour_timestamps = ht;
    }

    /// A field-by-field copy.
    pub fn duplicate(&self) -> (r: RequestRecord)
        ensures
            r@ == self@,
    {
        RequestRecord {
            ip: self.ip.clone(),
            minute_count: self.minute_count,
            hour_count: self.hour_count,
            minute_timestamps: copy_vec(&self.minute_timestamps),
            hour_timestamps: copy_vec(&self.hour_timestamps),
            blocked_until: self.blocked_until,
            first_seen: self.first_seen,
            last_seen: self.last_seen,
        }
    }
}

/// The answer to one request.
pub enum DdosCheckResult {
    Allowed,
    RateLimited { limit_type: String, current: u32, limit: u32 },
    Blocked { remaining_secs: u64, reason: String },
    Invalid { reason: String },
}

impl DdosCheckResult {
    /// Whether the request was allowed.
    pub fn is_allowed(&self) -> (b: bool)
        ensures
            b == (*self is Allowed),
    {
        match self {
            DdosCheckResult::Allowed => true,
            _ => false,
        }
    }

    /// Whether the request was refused for its rate (blocked or rate-limited).
    pub fn is_blocked(&self) -> (b: bool)
        ensures
            b == (*self is Blocked || *self is RateLimited),
    {
        match self {
            DdosCheckResult::Blocked { .. } | DdosCheckResult::RateLimited { .. } => true,
            _ => false,
        }
    }
}

/// When an IP was put on the blocked list.
pub struct BlockedEntry {
    pub ip: String,
    pub blocked_at: u64,
}

impl Keyed for BlockedEntry {
    open spec fn key_view(&self) -> Seq<char> {
        self.ip@
    }

    fn key_str(&self) -> (r: &str) {
        self.ip.as_str()
    }
}

/// An IP with many recent requests.
pub struct HighTrafficIp {
    pub ip: String,
    pub minute_requests: u32,
    pub hour_requests: u32,
}

/// Counters and the high-traffic IPs.
pub struct DdosStats {
    pub total_requests: u64,
    pub active_ips: usize,
    pub currently_blocked: usize,
    pub high_traffic_ips: Vec<HighTrafficIp>,
}

/// A record counts as high traffic with more than 30 requests in its minute
/// counter or more than 200 in its hour counter.
pub open spec fn is_high_traffic(m: RecordModel) -> bool {
    m.minute_count > 30 || m.hour_count > 200
}

/// The high-traffic records of `s`, in order, as (ip, minute count, hour count).
pub open spec fn high_traffic(s: Seq<RequestRecord>) -> Seq<(Seq<char>, u32, u32)>
    decreases s.len(),
{
    if s.len() == 0 {
        seq![]
    } else if is_high_traffic(s.last()@) {
        high_traffic(s.drop_last()).push((s.last().ip@, s.last().minute_count, s.last().hour_count))
    } else {
        high_traffic(s.drop_last())
    }
}

/// A record survives cleanup when it was seen within the last hour or is blocked.
pub open spec fn keeps_record(m: RecordModel, now: u64) -> bool {
    m.last_seen > window_start(now, HOUR_MS) || blocked_at(m, now)
}

/// What one request check does: `parsed_ip` is the outcome of parsing and
/// normalizing the client's address; `Err` carries the parse error.
pub open spec fn check_request_post(old: DdosGuard, new: DdosGuard, parsed_ip: Result<String, String>, now: u64, r: DdosCheckResult) -> bool {
    match parsed_ip {
        Err(e) => {
            &&& r matches DdosCheckResult::Invalid { reason } && reason@ == e@
            &&& new.records() == old.records()
            &&& new.blocked() == old.blocked()
            &&& new.total() == old.total()
        },
        Ok(ip) => {
            let before = if old.records().dom().contains(ip@) {
                old.records()[ip@]@
            } else {
                fresh_record(ip@, now)
            };
            let after = admitted(before, now);
            let cfg = old.config_view();
            &&& new.total() == old.total() + 1
            &&& new.config_view() == cfg
            &&& new.records().dom() =~= old.records().dom().insert(ip@)
            &&& forall|k: Seq<char>| k != ip@ && #[trigger] old.records().dom().contains(k)
                ==> new.records()[k] == old.records()[k]
            &&& if blocked_at(before, now) {
                &&& r matches DdosCheckResult::Blocked { remaining_secs, reason }
                    && remaining_secs == (before.blocked_until->0 - now) / 1000
                    && reason@ == "rate limit exceeded"@
                &&& new.records()[ip@]@ == before
                &&& new.blocked() == old.blocked()
            } else {
                match limit_hit(after, cfg, now) {
                    LimitHit::Within => {
                        &&& r is Allowed
                        &&& new.records()[ip@]@ == after
                        &&& new.blocked() == old.blocked()
                    },
                    hit => {
                        &&& new.records()[ip@]@ == (RecordModel {
                            blocked_until: Some(deadline(now, cfg.block_duration_secs)), ..after })
                        &&& new.blocked().dom() =~= old.blocked().dom().insert(ip@)
                        &&& new.blocked()[ip@].blocked_at == now
                        &&& forall|k: Seq<char>| k != ip@ && #[trigger] old.blocked().dom().contains(k)
                            ==> new.blocked()[k] == old.blocked()[k]
                        &&& match hit {
                            LimitHit::Minute => r matches DdosCheckResult::RateLimited { limit_type, current, limit }
                                && limit_type@ == "minute"@ && current == after.minute_count
                                && limit == cfg.requests_per_minute,
                            LimitHit::Hour => r matches DdosCheckResult::RateLimited { limit_type, current, limit }
                                && limit_type@ == "hour"@ && current == after.hour_count
                                && limit == cfg.requests_per_hour,
                            LimitHit::Burst { recent } => r matches DdosCheckResult::RateLimited { limit_type, current, limit }
                                && limit_type@ == "burst"@ && current == #[verifier::truncate] (recent as u32)
                                && limit == cfg.burst_size,
                            LimitHit::Within => false,
                        }
                    },
                }
            }
        },
    }
}

/// What lifting the block of an IP does.
pub open spec fn unblock_post(old: DdosGuard, new: DdosGuard, parsed_ip: Result<String, String>, r: Result<(), String>) -> bool {
    &&& new.config_view() == old.config_view()
    &&& new.total() == old.total()
    &&& match parsed_ip {
        Err(e) => r matches Err(x) && x@ == e@ && new.records() == old.records() && new.blocked() == old.blocked(),
        Ok(ip) => {
            &&& r is Ok
            &&& new.blocked() =~= old.blocked().remove(ip@)
            &&& new.records().dom() =~= old.records().dom()
            &&& forall|k: Seq<char>| k != ip@ && #[trigger] old.records().dom().contains(k)
                ==> new.records()[k] == old.records()[k]
            &&& old.records().dom().contains(ip@) ==>
                new.records()[ip@]@ == (RecordModel { blocked_until: None, ..old.records()[ip@]@ })
        },
    }
}

/// Once a check of an IP is answered `RateLimited`, every later check of the
/// same IP before the block ends is answered `Blocked`.
pub proof fn law_rate_limited_then_blocked(
    g1: DdosGuard, g2: DdosGuard, g3: DdosGuard, ip: String, t1: u64, t2: u64,
    r1: DdosCheckResult, r2: DdosCheckResult,
)
    requires
        check_request_post(g1, g2, Ok(ip), t1, r1),
        r1 is RateLimited,
        t1 <= t2 < deadline(t1, g1.config_view().block_duration_secs),
        check_request_post(g2, g3, Ok(ip), t2, r2),
    ensures
        r2 is Blocked,
{
    assert(g2.records().dom().contains(ip@));
}

/// After the block of an IP is lifted, the next check of that IP is not
/// answered `Blocked`.
pub proof fn law_unblocked_ip_is_not_blocked(
    g1: DdosGuard, g2: DdosGuard, g3: DdosGuard, ip: String, t: u64,
    u: Result<(), String>, r: DdosCheckResult,
)
    requires
        unblock_post(g1, g2, Ok(ip), u),
        check_request_post(g2, g3, Ok(ip), t, r),
    ensures
        !(r is Blocked),
{
    if g1.records().dom().contains(ip@) {
        assert(g2.records().dom().contains(ip@));
    } else {
        assert(!g2.records().dom().contains(ip@));
    }
}

/// Rate limiter state: one record per IP, the blocked list, the configuration
/// and the total number of requests checked.
pub struct DdosGuard {
    records: Store<RequestRecord>,
    config: RateLimitConfig,
    total_requests: u64,
    blocked_ips: Store<BlockedEntry>,
}

/// What a clean-up at `now` does: every record's windows are trimmed,
/// records neither seen within the last hour nor blocked are dropped, and
/// blocked-list entries older than an hour are dropped.
pub open spec fn cleanup_post(old: DdosGuard, new: DdosGuard, now: u64) -> bool {
    &&& new.records().dom() == old.records().dom().filter(
        |k: Seq<char>| keeps_record(trimmed(old.records()[k]@, now), now))
    &&& forall|k: Seq<char>| #[trigger] new.records().dom().contains(k)
        ==> new.records()[k]@ == trimmed(old.records()[k]@, now)
    &&& new.blocked().dom() == old.blocked().dom().filter(
        |k: Seq<char>| old.blocked()[k].blocked_at > window_start(now, HOUR_MS))
    &&& forall|k: Seq<char>| #[trigger] new.blocked().dom().contains(k)
        ==> new.blocked()[k] == old.blocked()[k]
    &&& new.config_view() == old.config_view()
    &&& new.total() == old.total()
}

impl DdosGuard {
    /// The records, by IP.
    pub closed spec fn records(&self) -> Map<Seq<char>, RequestRecord> {
        self.records.map()
    }

    /// The records in their order.
    pub closed spec fn record_list(&self) -> Seq<RequestRecord> {
        self.records.items()
    }

    /// The blocked list: IP to the time it was blocked.
    pub closed spec fn blocked(&self) -> Map<Seq<char>, BlockedEntry> {
        self.blocked_ips.map()
    }

    /// The number of entries on the blocked list.
    pub closed spec fn blocked_count(&self) -> nat {
        self.blocked_ips.items().len()
    }

    /// The configuration.
    pub closed spec fn config_view(&self) -> RateLimitConfig {
        self.config
    }

    /// The number of requests checked.
    pub closed spec fn total(&self) -> u64 {
        self.total_requests
    }

    /// Every record can admit one more request without counter overflow.
    pub open spec fn has_room(&self) -> bool {
        forall|k: Seq<char>| #[trigger] self.records().dom().contains(k) ==> has_room(self.records()[k]@)
    }

    /// No records, default configuration, nothing blocked, zero requests.
    pub fn new() -> (g: DdosGuard)
        ensures
            g.records() == Map::<Seq<char>, RequestRecord>::empty(),
            g.blocked() == Map::<Seq<char>, BlockedEntry>::empty(),
            g.config_view() == RateLimitConfig::default_spec(),
            g.total() == 0,
    {
        DdosGuard {
            records: Store::new(),
            config: RateLimitConfig::default_config(),
            total_requests: 0,
            blocked_ips: Store::new(),
        }
    }

    /// Replaces the configuration.
    pub fn set_config(&mut self, config: RateLimitConfig)
        ensures
            final(self).config_view() == config,
            final(self).records() == old(self).records(),
            final(self).blocked() == old(self).blocked(),
            final(self).total() == old(self).total(),
    {
        self.config = config;
    }

    /// The configuration.
    pub fn get_config(&self) -> (c: RateLimitConfig)
        ensures
            c == self.config_view(),
    {
        self.config
    }

    /// Checks one request at time `now`, given the outcome of parsing and
    /// normalizing the client's address text (`Err` carries the parse error).
    pub fn check_request_at(&mut self, parsed_ip: Result<String, String>, now: u64) -> (r: DdosCheckResult)
        requires
            old(self).total() < u64::MAX,
            old(self).has_room(),
        ensures
            check_request_post(*old(self), *final(self), parsed_ip, now, r),
    {
        let ip = match parsed_ip {
            Ok(ip) => ip,
            Err(e) => return DdosCheckResult::Invalid { reason: e },
        };
        self.total_requests = self.total_requests + 1;
        self.records.facts();
        let existing = self.records.get(ip.as_str());
        let blocked_now = match existing {
            Some(rec) => rec.is_blocked(now),
            None => false,
        };
        if blocked_now {
            let until = match existing {
                Some(rec) => match rec.blocked_until {
                    Some(u) => u,
                    None => now,
                },
                None => now,
            };
            proof {
                assert(old(self).records().insert(ip@, old(self).records()[ip@]) =~= old(self).records());
            }
            return DdosCheckResult::Blocked {
                remaining_secs: (until - now) / 1000,
                reason: owned("rate limit exceeded"),
            };
        }
        let mut record = match self.records.remove(ip.as_str()) {
            Some(rec) => rec,
            None => RequestRecord::new(ip.clone(), now),
        };
        proof {
            assert(has_room(record@));
            lemma_later_than_len(record@.minute_timestamps, window_start(now, MINUTE_MS));
            lemma_later_than_len(record@.hour_timestamps, window_start(now, HOUR_MS));
        }
        record.cleanup_old_timestamps(now);
        record.last_seen = now;
        record.minute_timestamps.push(now);
        record.minute_count = record.minute_count + 1;
        record.hour_timestamps.push(now);
        record.hour_count = record.hour_count + 1;
        let config = self.config;
        let mut result = DdosCheckResult::Allowed;
        if record.minute_count > config.requests_per_minute {
            record.block(config.block_duration_secs, now);
            self.blocked_ips.upsert(BlockedEntry { ip: ip.clone(), blocked_at: now });
            result = DdosCheckResult::RateLimited {
                limit_type: owned("minute"),
                current: record.minute_count,
                limit: config.requests_per_minute,
            };
        } else if record.hour_count > config.requests_per_hour {
            record.block(config.block_duration_secs, now);
            self.blocked_ips.upsert(BlockedEntry { ip: ip.clone(), blocked_at: now });
            result = DdosCheckResult::RateLimited {
                limit_type: owned("hour"),
                current: record.hour_count,
                limit: config.requests_per_hour,
            };
        } else {
            let burst = record.minute_timestamps.len();
            if #[verifier::truncate] (burst as u32) > config.burst_size {
                let recent = count_recent(&record.minute_timestamps, now, BURST_WINDOW_MS);
                if #[verifier::truncate] (recent as u32) > config.burst_size {
                    record.block(config.block_duration_secs, now);
                    self.blocked_ips.upsert(BlockedEntry { ip: ip.clone(), blocked_at: now });
                    result = DdosCheckResult::RateLimited {
                        limit_type: owned("burst"),
                        current: #[verifier::truncate] (recent as u32),
                        limit: config.burst_size,
                    };
                }
            }
        }
        self.records.upsert(record);
        result
    }

    /// Checks one request at the current time.
    pub fn check_request(&mut self, parsed_ip: Result<String, String>) -> (r: DdosCheckResult)
        requires
            old(self).total() < u64::MAX,
            old(self).has_room(),
        ensures
            exists|now: u64| check_request_post(*old(self), *final(self), parsed_ip, now, r),
    {
        let now = now_millis_unsigned();
        self.check_request_at(parsed_ip, now)
    }

    /// The record of an IP, if any.
    pub fn get_record(&self, ip: &str) -> (r: Option<RequestRecord>)
        ensures
            match r {
                Some(rec) => self.records().dom().contains(ip@) && rec@ == self.records()[ip@]@,
                None => !self.records().dom().contains(ip@),
            },
    {
        match self.records.get(ip) {
            Some(rec) => Some(rec.duplicate()),
            None => None,
        }
    }

    /// Copies of all records, in order.
    pub fn get_all_records(&self) -> (v: Vec<RequestRecord>)
        ensures
            v@.len() == self.record_list().len(),
            forall|i: int| 0 <= i < v@.len() ==> #[trigger] v@[i]@ == self.record_list()[i]@,
    {
        let items = self.records.as_vec();
        let n = items.len();
        let mut v: Vec<RequestRecord> = Vec::new();
        let mut i: usize = 0;
        while i < n
            invariant
                n == items@.len(),
                items@ == self.record_list(),
                i <= n,
                v@.len() == i,
                forall|j: int| 0 <= j < i ==> #[trigger] v@[j]@ == items@[j]@,
            decreases n - i,
        {
            v.push(items[i].duplicate());
            i = i + 1;
        }
        v
    }

    /// Lifts the block of an IP and takes it off the blocked list.
    pub fn unblock_ip(&mut self, parsed_ip: Result<String, String>) -> (r: Result<(), String>)
        ensures
            unblock_post(*old(self), *final(self), parsed_ip, r),
    {
        let ip = match parsed_ip {
            Ok(ip) => ip,
            Err(e) => return Err(e),
        };
        match self.records.remove(ip.as_str()) {
            Some(rec) => {
                let mut rec = rec;
                rec.blocked_until = None;
                self.records.upsert(rec);
                proof {
                    assert(old(self).records().remove(ip@).insert(ip@, self.records()[ip@]).dom() =~= old(self).records().dom());
                }
            }
            None => {}
        }
        let _ = self.blocked_ips.remove(ip.as_str());
        Ok(())
    }

    /// Forgets an IP: its record and its blocked-list entry.
    pub fn clear_ip(&mut self, parsed_ip: Result<String, String>) -> (r: Result<(), String>)
        ensures
            match parsed_ip {
                Err(e) => r matches Err(x) && x@ == e@ && final(self).records() == old(self).records()
                    && final(self).blocked() == old(self).blocked(),
                Ok(ip) => r is Ok && final(self).records() == old(self).records().remove(ip@)
                    && final(self).blocked() == old(self).blocked().remove(ip@),
            },
            final(self).config_view() == old(self).config_view(),
            final(self).total() == old(self).total(),
    {
        let ip = match parsed_ip {
            Ok(ip) => ip,
            Err(e) => return Err(e),
        };
        let _ = self.records.remove(ip.as_str());
        let _ = self.blocked_ips.remove(ip.as_str());
        Ok(())
    }

    /// Totals, number of tracked and blocked IPs, and the high-traffic records.
    pub fn get_stats(&self) -> (s: DdosStats)
        ensures
            s.total_requests == self.total(),
            s.active_ips == self.record_list().len(),
            s.currently_blocked == self.blocked_count(),
            s.high_traffic_ips@.len() == high_traffic(self.record_list()).len(),
            forall|i: int| 0 <= i < s.high_traffic_ips@.len() ==> {
                let h = #[trigger] s.high_traffic_ips@[i];
                (h.ip@, h.minute_requests, h.hour_requests) == high_traffic(self.record_list())[i]
            },
    {
        let items = self.records.as_vec();
        let n = items.len();
        let mut v: Vec<HighTrafficIp> = Vec::new();
        let mut i: usize = 0;
        while i < n
            invariant
                n == items@.len(),
                items@ == self.record_list(),
                i <= n,
                v@.len() == high_traffic(items@.subrange(0, i as int)).len(),
                forall|j: int| 0 <= j < v@.len() ==> {
                    let h = #[trigger] v@[j];
                    (h.ip@, h.minute_requests, h.hour_requests) == high_traffic(items@.subrange(0, i as int))[j]
                },
            decreases n - i,
        {
            proof {
                assert(items@.subrange(0, i + 1).drop_last() =~= items@.subrange(0, i as int));
            }
            let rec = &items[i];
            if rec.minute_count > 30 || rec.hour_count > 200 {
                v.push(HighTrafficIp { ip: rec.ip.clone(), minute_requests: rec.minute_count, hour_requests: rec.hour_count });
            }
            i = i + 1;
        }
        assert(items@.subrange(0, n as int) =~= items@);
        DdosStats {
            total_requests: self.total_requests,
            active_ips: self.records.len(),
            currently_blocked: self.blocked_ips.len(),
            high_traffic_ips: v,
        }
    }

    /// Trims every record's windows, drops records neither seen within the last
    /// hour nor blocked, and drops blocked-list entries older than an hour.
    pub fn cleanup_expired_at(&mut self, now: u64)
        ensures
            cleanup_post(*old(self), *final(self), now),
    {
        let mut old_records: Store<RequestRecord> = Store::new();
        std::mem::swap(&mut old_records, &mut self.records);
        old_records.facts();
        let mut fresh: Store<RequestRecord> = Store::new();
        let n = old_records.len();
        let items = old_records.as_vec();
        let mut i: usize = 0;
        while i < n
            invariant
                n == items@.len(),
                items@ == old_records.items(),
                old_records.map() == old(self).records(),
                unique_keys(items@),
                forall|j: int| 0 <= j < items@.len() ==> #[trigger] old_records.map().dom().contains(items@[j].key_view())
                    && old_records.map()[items@[j].key_view()] == items@[j],
                forall|k: Seq<char>| #[trigger] old_records.map().dom().contains(k) <==> has_key(items@, k),
                i <= n,
                forall|k: Seq<char>| #[trigger] fresh.map().dom().contains(k) <==>
                    (has_key(items@.subrange(0, i as int), k) && keeps_record(trimmed(old_records.map()[k]@, now), now)),
                forall|k: Seq<char>| #[trigger] fresh.map().dom().contains(k)
                    ==> fresh.map()[k]@ == trimmed(old_records.map()[k]@, now),
            decreases n - i,
        {
            let mut rec = items[i].duplicate();
            rec.cleanup_old_timestamps(now);
            let keep = rec.last_seen > now.saturating_sub(HOUR_MS) || rec.is_blocked(now);
            let ghost k_i = items@[i as int].key_view();
            proof {
                assert forall|k: Seq<char>| has_key(items@.subrange(0, i + 1), k) <==>
                    (has_key(items@.subrange(0, i as int), k) || k == k_i) by {
                    if has_key(items@.subrange(0, i + 1), k) {
                        let j = choose|j: int| 0 <= j < i + 1 && #[trigger] items@.subrange(0, i + 1)[j].key_view() == k;
                        if j < i {
                            assert(items@.subrange(0, i as int)[j].key_view() == k);
                        }
                    }
                    if has_key(items@.subrange(0, i as int), k) {
                        let j = choose|j: int| 0 <= j < i && #[trigger] items@.subrange(0, i as int)[j].key_view() == k;
                        assert(items@.subrange(0, i + 1)[j].key_view() == k);
                    }
                    if k == k_i {
                        assert(items@.subrange(0, i + 1)[i as int].key_view() == k);
                    }
                }
            }
            if keep {
                fresh.upsert(rec);
            }
            i = i + 1;
        }
        proof {
            assert(items@.subrange(0, n as int) =~= items@);
            assert(fresh.map().dom() =~= old(self).records().dom().filter(
                |k: Seq<char>| keeps_record(trimmed(old(self).records()[k]@, now), now)));
        }
        self.records = fresh;

        let mut old_blocked: Store<BlockedEntry> = Store::new();
        std::mem::swap(&mut old_blocked, &mut self.blocked_ips);
        old_blocked.facts();
        let cutoff = now.saturating_sub(HOUR_MS);
        let mut kept: Store<BlockedEntry> = Store::new();
        let m = old_blocked.len();
        let entries = old_blocked.as_vec();
        let mut j: usize = 0;
        while j < m
            invariant
                m == entries@.len(),
                entries@ == old_blocked.items(),
                old_blocked.map() == old(self).blocked(),
                unique_keys(entries@),
                forall|x: int| 0 <= x < entries@.len() ==> #[trigger] old_blocked.map().dom().contains(entries@[x].key_view())
                    && old_blocked.map()[entries@[x].key_view()] == entries@[x],
                forall|k: Seq<char>| #[trigger] old_blocked.map().dom().contains(k) <==> has_key(entries@, k),
                j <= m,
                cutoff == window_start(now, HOUR_MS),
                forall|k: Seq<char>| #[trigger] kept.map().dom().contains(k) <==>
                    (has_key(entries@.subrange(0, j as int), k) && old_blocked.map()[k].blocked_at > cutoff),
                forall|k: Seq<char>| #[trigger] kept.map().dom().contains(k) ==> kept.map()[k] == old_blocked.map()[k],
            decreases m - j,
        {
            let e = &entries[j];
            let ghost k_j = entries@[j as int].key_view();
            proof {
                assert forall|k: Seq<char>| has_key(entries@.subrange(0, j + 1), k) <==>
                    (has_key(entries@.subrange(0, j as int), k) || k == k_j) by {
                    if has_key(entries@.subrange(0, j + 1), k) {
                        let x = choose|x: int| 0 <= x < j + 1 && #[trigger] entries@.subrange(0, j + 1)[x].key_view() == k;
                        if x < j {
                            assert(entries@.subrange(0, j as int)[x].key_view() == k);
                        }
                    }
                    if has_key(entries@.subrange(0, j as int), k) {
                        let x = choose|x: int| 0 <= x < j && #[trigger] entries@.subrange(0, j as int)[x].key_view() == k;
                        assert(entries@.subrange(0, j + 1)[x].key_view() == k);
                    }
                    if k == k_j {
                        assert(entries@.subrange(0, j + 1)[j as int].key_view() == k);
                    }
                }
            }
            if e.blocked_at > cutoff {
                kept.upsert(BlockedEntry { ip: e.ip.clone(), blocked_at: e.blocked_at });
            }
            j = j + 1;
        }
        proof {
            assert(entries@.subrange(0, m as int) =~= entries@);
            assert(kept.map().dom() =~= old(self).blocked().dom().filter(
                |k: Seq<char>| old(self).blocked()[k].blocked_at > window_start(now, HOUR_MS)));
        }
        self.blocked_ips = kept;
    }
}

impl DdosGuard {
    /// Cleanup at the current time.
    pub fn cleanup_expired(&mut self)
        ensures
            exists|now: u64| cleanup_post(*old(self), *final(self), now),
            final(self).records().dom().subset_of(old(self).records().dom()),
            final(self).blocked().dom().subset_of(old(self).blocked().dom()),
            final(self).config_view() == old(self).config_view(),
            final(self).total() == old(self).total(),
    {
        let now = now_millis_unsigned();
        self.cleanup_expired_at(now);
    }
}

impl RateLimitConfig {
    /// The default limits.
    pub open spec fn default_spec() -> RateLimitConfig {
        RateLimitConfig {
            requests_per_minute: 60,
            requests_per_hour: 1000,
            burst_size: 10,
            block_duration_secs: 300,
            cleanup_interval_secs: 60,
        }
    }
}

/// A request from an IP that is not blocked, which takes the IP's count of
/// requests within the last hour (this one included) above the hourly limit
/// while its count within the last minute stays within the minute limit, is
/// answered `RateLimited` with limit type "hour", the count and the limit, and
/// the IP is blocked for the configured time and put on the blocked list.
pub proof fn law_hourly_limit_blocks(g1: DdosGuard, g2: DdosGuard, ip: String, now: u64, r: DdosCheckResult)
    requires
        g1.has_room(),
        check_request_post(g1, g2, Ok(ip), now, r),
        ({
            let before = if g1.records().dom().contains(ip@) { g1.records()[ip@]@ } else { fresh_record(ip@, now) };
            &&& !blocked_at(before, now)
            &&& later_than(before.hour_timestamps, now.saturating_sub(HOUR_MS)).len() + 1 > g1.config_view().requests_per_hour
            &&& later_than(before.minute_timestamps, now.saturating_sub(MINUTE_MS)).len() + 1 <= g1.config_view().requests_per_minute
        }),
    ensures
        ({
            let before = if g1.records().dom().contains(ip@) { g1.records()[ip@]@ } else { fresh_record(ip@, now) };
            &&& r matches DdosCheckResult::RateLimited { limit_type, current, limit }
                && limit_type@ == "hour"@
                && current == later_than(before.hour_timestamps, now.saturating_sub(HOUR_MS)).len() + 1
                && limit == g1.config_view().requests_per_hour
            &&& g2.records()[ip@]@.blocked_until == Some(now.saturating_add(secs_to_ms(g1.config_view().block_duration_secs)))
            &&& g2.blocked().dom().contains(ip@)
            &&& g2.blocked()[ip@].blocked_at == now
        }),
{
    let before = if g1.records().dom().contains(ip@) { g1.records()[ip@]@ } else { fresh_record(ip@, now) };
    lemma_later_than_len(before.hour_timestamps, window_start(now, HOUR_MS));
    lemma_later_than_len(before.minute_timestamps, window_start(now, MINUTE_MS));
}

/// A request from an IP that is not blocked, which takes the IP's count of
/// requests within the last minute (this one included) above the minute
/// limit, is answered `RateLimited` with limit type "minute", the count and
/// the limit, and the IP is blocked and put on the blocked list.
pub proof fn law_minute_limit_blocks(g1: DdosGuard, g2: DdosGuard, ip: String, now: u64, r: DdosCheckResult)
    requires
        g1.has_room(),
        check_request_post(g1, g2, Ok(ip), now, r),
        ({
            let before = if g1.records().dom().contains(ip@) { g1.records()[ip@]@ } else { fresh_record(ip@, now) };
            &&& !blocked_at(before, now)
            &&& later_than(before.minute_timestamps, now.saturating_sub(MINUTE_MS)).len() + 1 > g1.config_view().requests_per_minute
        }),
    ensures
        ({
            let before = if g1.records().dom().contains(ip@) { g1.records()[ip@]@ } else { fresh_record(ip@, now) };
            &&& r matches DdosCheckResult::RateLimited { limit_type, current, limit }
                && limit_type@ == "minute"@
                && current == later_than(before.minute_timestamps, now.saturating_sub(MINUTE_MS)).len() + 1
                && limit == g1.config_view().requests_per_minute
            &&& g2.records()[ip@]@.blocked_until == Some(now.saturating_add(secs_to_ms(g1.config_view().block_duration_secs)))
            &&& g2.blocked().dom().contains(ip@)
            &&& g2.blocked()[ip@].blocked_at == now
        }),
{
    let before = if g1.records().dom().contains(ip@) { g1.records()[ip@]@ } else { fresh_record(ip@, now) };
    lemma_later_than_len(before.hour_timestamps, window_start(now, HOUR_MS));
    lemma_later_than_len(before.minute_timestamps, window_start(now, MINUTE_MS));
}

proof fn lemma_count_younger_len(ts: Seq<u64>, now: u64, width: u64)
    ensures
        count_younger(ts, now, width) <= ts.len(),
    decreases ts.len(),
{
    if ts.len() > 0 {
        lemma_count_younger_len(ts.drop_last(), now, width);
    }
}

/// A request from an IP that is not blocked, whose counts within the last
/// minute and the last hour (this one included) stay within their limits and
/// of whose requests within the last minute at most the burst size came
/// within the last ten seconds, is allowed: the record takes the request and
/// the blocked list is unchanged.
pub proof fn law_within_limits_is_allowed(g1: DdosGuard, g2: DdosGuard, ip: String, now: u64, r: DdosCheckResult)
    requires
        g1.has_room(),
        check_request_post(g1, g2, Ok(ip), now, r),
        ({
            let before = if g1.records().dom().contains(ip@) { g1.records()[ip@]@ } else { fresh_record(ip@, now) };
            let minute = later_than(before.minute_timestamps, now.saturating_sub(MINUTE_MS)).push(now);
            &&& !blocked_at(before, now)
            &&& minute.len() <= g1.config_view().requests_per_minute
            &&& later_than(before.hour_timestamps, now.saturating_sub(HOUR_MS)).len() + 1 <= g1.config_view().requests_per_hour
            &&& count_younger(minute, now, BURST_WINDOW_MS) <= g1.config_view().burst_size
        }),
    ensures
        r is Allowed,
        g2.blocked() == g1.blocked(),
        g2.records()[ip@]@.minute_timestamps.last() == now,
        g2.records()[ip@]@.hour_timestamps.last() == now,
{
    let before = if g1.records().dom().contains(ip@) { g1.records()[ip@]@ } else { fresh_record(ip@, now) };
    lemma_later_than_len(before.hour_timestamps, window_start(now, HOUR_MS));
    lemma_later_than_len(before.minute_timestamps, window_start(now, MINUTE_MS));
    let minute = later_than(before.minute_timestamps, now.saturating_sub(MINUTE_MS)).push(now);
    lemma_count_younger_len(minute, now, BURST_WINDOW_MS);
}

/// A request from an IP that is not blocked, within its minute and hour
/// limits, after which more than the burst size of its requests within the
/// last minute came within the last ten seconds, is answered `RateLimited`
/// with limit type "burst", that number and the burst size, and the IP is
/// blocked and put on the blocked list.
pub proof fn law_burst_blocks(g1: DdosGuard, g2: DdosGuard, ip: String, now: u64, r: DdosCheckResult)
    requires
        g1.has_room(),
        check_request_post(g1, g2, Ok(ip), now, r),
        ({
            let before = if g1.records().dom().contains(ip@) { g1.records()[ip@]@ } else { fresh_record(ip@, now) };
            let minute = later_than(before.minute_timestamps, now.saturating_sub(MINUTE_MS)).push(now);
            &&& !blocked_at(before, now)
            &&& minute.len() <= g1.config_view().requests_per_minute
            &&& later_than(before.hour_timestamps, now.saturating_sub(HOUR_MS)).len() + 1 <= g1.config_view().requests_per_hour
            &&& count_younger(minute, now, BURST_WINDOW_MS) > g1.config_view().burst_size
        }),
    ensures
        ({
            let before = if g1.records().dom().contains(ip@) { g1.records()[ip@]@ } else { fresh_record(ip@, now) };
            let minute = later_than(before.minute_timestamps, now.saturating_sub(MINUTE_MS)).push(now);
            &&& r matches DdosCheckResult::RateLimited { limit_type, current, limit }
                && limit_type@ == "burst"@
                && current == count_younger(minute, now, BURST_WINDOW_MS)
                && limit == g1.config_view().burst_size
            &&& g2.records()[ip@]@.blocked_until == Some(now.saturating_add(secs_to_ms(g1.config_view().block_duration_secs)))
            &&& g2.blocked().dom().contains(ip@)
            &&& g2.blocked()[ip@].blocked_at == now
        }),
{
    let before = if g1.records().dom().contains(ip@) { g1.records()[ip@]@ } else { fresh_record(ip@, now) };
    lemma_later_than_len(before.hour_timestamps, window_start(now, HOUR_MS));
    lemma_later_than_len(before.minute_timestamps, window_start(now, MINUTE_MS));
    let minute = later_than(before.minute_timestamps, now.saturating_sub(MINUTE_MS)).push(now);
    lemma_count_younger_len(minute, now, BURST_WINDOW_MS);
}

} // verus!
