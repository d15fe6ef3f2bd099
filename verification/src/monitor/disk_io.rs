//! Disk input/output: byte counters read from the kernel turned into rates,
//! a bounded history of per-device rates, partition figures, and queries over
//! recent activity. Percentages and thresholds are the bit patterns of IEEE
//! doubles; times are milliseconds since the epoch.
use vstd::prelude::*;
use crate::keyed::{Keyed, Store};
use crate::text::{owned, str_eq, chars_of, string_from_chars, split_lines, split_words, parse_u64, parsed_u64, pieces, words, char_vecs};
use crate::clock::now_millis_unsigned;
use crate::monitor::deadlock::bounded_push;
use crate::monitor::network::{seconds_before, time_seconds_before};
use crate::monitor::dashboard::view_map;
use crate::security::audit_log::newest;
use crate::dup::{Duplicate, views, dup_vec, newest_dup};

verus! {

/// The rates of one device at one time.
pub struct DiskIoStats {
    pub device: String,
    pub read_bytes_per_sec: u64,
    pub write_bytes_per_sec: u64,
    pub read_ops_per_sec: u64,
    pub write_ops_per_sec: u64,
    pub utilization_percent_bits: u64,
    pub queue_depth: u32,
    pub timestamp: u64,
}

/// The plain content of device rates.
pub struct IoView {
    pub device: Seq<char>,
    pub read_bytes_per_sec: u64,
    pub write_bytes_per_sec: u64,
    pub read_ops_per_sec: u64,
    pub write_ops_per_sec: u64,
    pub utilization_percent_bits: u64,
    pub queue_depth: u32,
    pub timestamp: u64,
}

impl View for DiskIoStats {
    type V = IoView;

    open spec fn view(&self) -> IoView {
        IoView {
            device: self.device@,
            read_bytes_per_sec: self.read_bytes_per_sec,
            write_bytes_per_sec: self.write_bytes_per_sec,
            read_ops_per_sec: self.read_ops_per_sec,
            write_ops_per_sec: self.write_ops_per_sec,
            utilization_percent_bits: self.utilization_percent_bits,
            queue_depth: self.queue_depth,
            timestamp: self.timestamp,
        }
    }
}

impl Duplicate for DiskIoStats {
    fn dup(&self) -> (r: DiskIoStats) {
        DiskIoStats {
            device: self.device.clone(),
            read_bytes_per_sec: self.read_bytes_per_sec,
            write_bytes_per_sec: self.write_bytes_per_sec,
            read_ops_per_sec: self.read_ops_per_sec,
            write_ops_per_sec: self.write_ops_per_sec,
            utilization_percent_bits: self.utilization_percent_bits,
            queue_depth: self.queue_depth,
            timestamp: self.timestamp,
        }
    }
}

/// Space figures of one partition.
pub struct DiskPartitionInfo {
    pub name: String,
    pub mount_point: String,
    pub total_space: u64,
    pub available_space: u64,
    pub used_space: u64,
    pub usage_percent_bits: u64,
    pub file_system: String,
}

/// The plain content of partition figures.
pub struct PartitionView {
    pub name: Seq<char>,
    pub mount_point: Seq<char>,
    pub total_space: u64,
    pub available_space: u64,
    pub used_space: u64,
    pub usage_percent_bits: u64,
    pub file_system: Seq<char>,
}

impl View for DiskPartitionInfo {
    type V = PartitionView;

    open spec fn view(&self) -> PartitionView {
        PartitionView {
            name: self.name@,
            mount_point: self.mount_point@,
            total_space: self.total_space,
            available_space: self.available_space,
            used_space: self.used_space,
            usage_percent_bits: self.usage_percent_bits,
            file_system: self.file_system@,
        }
    }
}

impl Duplicate for DiskPartitionInfo {
    fn dup(&self) -> (r: DiskPartitionInfo) {
        DiskPartitionInfo {
            name: self.name.clone(),
            mount_point: self.mount_point.clone(),
            total_space: self.total_space,
            available_space: self.available_space,
            used_space: self.used_space,
            usage_percent_bits: self.usage_percent_bits,
            file_system: self.file_system.clone(),
        }
    }
}

/// The figures of a partition with `total` bytes of which `available` are
/// free; `usage_percent_bits` is the used share as the caller computed it.
pub fn partition_from_space(name: String, mount_point: String, total: u64, available: u64, usage_percent_bits: u64) -> (p: DiskPartitionInfo)
    ensures
        p@ == (PartitionView {
            name: name@,
            mount_point: mount_point@,
            total_space: total,
            available_space: available,
            used_space: total.saturating_sub(available),
            usage_percent_bits,
            file_system: "unknown"@,
        }),
{
    DiskPartitionInfo {
        name,
        mount_point,
        total_space: total,
        available_space: available,
        used_space: total.saturating_sub(available),
        usage_percent_bits,
        file_system: owned("unknown"),
    }
}

/// How healthy a disk is.
#[derive(Clone, Copy, PartialEq, Eq, Structural, Debug)]
pub enum DiskHealth {
    Good,
    Warning,
    Bad,
    Unknown,
}

/// Health figures of a disk; the temperature is a double's bit pattern.
pub struct DiskHealthStatus {
    pub device: String,
    pub health: DiskHealth,
    pub temperature_bits: Option<u64>,
    pub power_on_hours: Option<u64>,
    pub reallocated_sectors: Option<u64>,
    pub pending_sectors: Option<u64>,
    pub uncorrectable_errors: Option<u64>,
    pub timestamp: u64,
}

/// What a disk threshold watches.
#[derive(Clone, Copy, PartialEq, Eq, Structural, Debug)]
pub enum DiskAlertMetric {
    ReadBytesPerSec,
    WriteBytesPerSec,
    UtilizationPercent,
    UsagePercent,
    IoWaitPercent,
}

/// A limit on a disk figure; the value is a double's bit pattern.
pub struct DiskAlertThreshold {
    pub metric: DiskAlertMetric,
    pub threshold_value_bits: u64,
    pub enabled: bool,
}

/// The byte counters of one device as the kernel reports them.
pub struct DiskSample {
    pub device: String,
    pub read_bytes: u64,
    pub write_bytes: u64,
}

/// The plain content of a counter sample.
pub struct DiskSampleView {
    pub device: Seq<char>,
    pub read_bytes: u64,
    pub write_bytes: u64,
}

impl View for DiskSample {
    type V = DiskSampleView;

    open spec fn view(&self) -> DiskSampleView {
        DiskSampleView { device: self.device@, read_bytes: self.read_bytes, write_bytes: self.write_bytes }
    }
}

/// The last byte counters read for a device.
pub struct DeviceCounters {
    pub device: String,
    pub read_bytes: u64,
    pub write_bytes: u64,
}

impl View for DeviceCounters {
    type V = (u64, u64);

    open spec fn view(&self) -> (u64, u64) {
        (self.read_bytes, self.write_bytes)
    }
}

impl Keyed for DeviceCounters {
    open spec fn key_view(&self) -> Seq<char> {
        self.device@
    }

    fn key_str(&self) -> (r: &str) {
        self.device.as_str()
    }
}

/// The device `name` read at `now` gets rates: there was an earlier
/// collection, strictly before `now`, that read the device.
pub open spec fn gets_rates(last: Option<u64>, counters: Map<Seq<char>, (u64, u64)>, name: Seq<char>, now: u64) -> bool {
    &&& last matches Some(l) && now > l
    &&& counters.dom().contains(name)
}

/// The rates recorded for `device` at `now`.
pub open spec fn io_stats_of(device: Seq<char>, rates: (u64, u64), now: u64) -> IoView {
    IoView {
        device,
        read_bytes_per_sec: rates.0,
        write_bytes_per_sec: rates.1,
        read_ops_per_sec: 0,
        write_ops_per_sec: 0,
        utilization_percent_bits: 0,
        queue_depth: 0,
        timestamp: now,
    }
}

/// The last counters `c` after reading each of `samples` in turn.
pub open spec fn counters_after(c: Map<Seq<char>, (u64, u64)>, samples: Seq<DiskSampleView>) -> Map<Seq<char>, (u64, u64)>
    decreases samples.len(),
{
    if samples.len() == 0 {
        c
    } else {
        let l = samples.last();
        counters_after(c, samples.drop_last()).insert(l.device, (l.read_bytes, l.write_bytes))
    }
}

/// The entries of `s` stamped after `cutoff`.
pub open spec fn io_after(s: Seq<IoView>, cutoff: u64) -> Seq<IoView>
    decreases s.len(),
{
    if s.len() == 0 {
        seq![]
    } else if s.last().timestamp > cutoff {
        io_after(s.drop_last(), cutoff).push(s.last())
    } else {
        io_after(s.drop_last(), cutoff)
    }
}

/// The entries of `s` for `device`, in order.
pub open spec fn of_device(s: Seq<IoView>, device: Seq<char>) -> Seq<IoView>
    decreases s.len(),
{
    if s.len() == 0 {
        seq![]
    } else if s.last().device == device {
        of_device(s.drop_last(), device).push(s.last())
    } else {
        of_device(s.drop_last(), device)
    }
}

/// The sum of the read rates (when `read`, else the write rates) of `s`.
pub open spec fn byte_sum(s: Seq<IoView>, read: bool) -> nat
    decreases s.len(),
{
    if s.len() == 0 { 0 } else { byte_sum(s.drop_last(), read) + (if read { s.last().read_bytes_per_sec } else { s.last().write_bytes_per_sec }) as nat }
}

/// The sum of the read operation rates (when `read`, else the write ones) of `s`.
pub open spec fn ops_sum(s: Seq<IoView>, read: bool) -> nat
    decreases s.len(),
{
    if s.len() == 0 { 0 } else { ops_sum(s.drop_last(), read) + (if read { s.last().read_ops_per_sec } else { s.last().write_ops_per_sec }) as nat }
}

/// The read and write rates of the entries of `s` for `device`, all added up.
pub open spec fn device_io(s: Seq<IoView>, device: Seq<char>) -> nat {
    byte_sum(of_device(s, device), true) + byte_sum(of_device(s, device), false)
}

proof fn lemma_byte_sum_prefix(s: Seq<IoView>, i: int, read: bool)
    requires
        0 <= i <= s.len(),
    ensures
        byte_sum(s.subrange(0, i), read) <= byte_sum(s, read),
    decreases s.len() - i,
{
    if i < s.len() {
        lemma_byte_sum_prefix(s, i + 1, read);
        assert(s.subrange(0, i + 1).drop_last() =~= s.subrange(0, i));
    } else {
        assert(s.subrange(0, i) =~= s);
    }
}

proof fn lemma_ops_sum_prefix(s: Seq<IoView>, i: int, read: bool)
    requires
        0 <= i <= s.len(),
    ensures
        ops_sum(s.subrange(0, i), read) <= ops_sum(s, read),
    decreases s.len() - i,
{
    if i < s.len() {
        lemma_ops_sum_prefix(s, i + 1, read);
        assert(s.subrange(0, i + 1).drop_last() =~= s.subrange(0, i));
    } else {
        assert(s.subrange(0, i) =~= s);
    }
}

/// Rate history, partition figures, thresholds, and the counters of the last
/// collection with its time.
pub struct DiskIoMonitor {
    io_history: Vec<DiskIoStats>,
    partition_info: Vec<DiskPartitionInfo>,
    max_history_size: usize,
    thresholds: Vec<DiskAlertThreshold>,
    last_sample_time: Option<u64>,
    last_bytes: Store<DeviceCounters>,
}

proof fn lemma_device_sum_prefix(s: Seq<IoView>, i: int, d: Seq<char>, read: bool)
    requires
        0 <= i <= s.len(),
    ensures
        byte_sum(of_device(s.subrange(0, i), d), read) <= byte_sum(of_device(s, d), read),
        ops_sum(of_device(s.subrange(0, i), d), read) <= ops_sum(of_device(s, d), read),
    decreases s.len() - i,
{
    if i < s.len() {
        lemma_device_sum_prefix(s, i + 1, d, read);
        let a = s.subrange(0, i);
        let b = s.subrange(0, i + 1);
        assert(b.drop_last() =~= a);
        assert(b.last() == s[i]);
        if s[i].device == d {
            assert(of_device(b, d) == of_device(a, d).push(s[i]));
            assert(of_device(b, d).drop_last() =~= of_device(a, d));
        } else {
            assert(of_device(b, d) == of_device(a, d));
        }
    } else {
        assert(s.subrange(0, i) =~= s);
    }
}

/// Device `d` has an entry in `s`.
pub open spec fn has_device(s: Seq<IoView>, d: Seq<char>) -> bool {
    exists|i: int| 0 <= i < s.len() && #[trigger] s[i].device == d
}

/// `r` names, once each and in some order, the devices of `w` whose read and
/// write rates add up to more than `limit`.
pub open spec fn lists_busy(r: Seq<Seq<char>>, w: Seq<IoView>, limit: int) -> bool {
    &&& forall|i: int, j: int| 0 <= i < r.len() && 0 <= j < r.len() && i != j ==> #[trigger] r[i] != #[trigger] r[j]
    &&& forall|d: Seq<char>| #[trigger] r.contains(d) <==> (has_device(w, d) && device_io(w, d) > limit)
}

fn window_of(h: &Vec<DiskIoStats>, cutoff: u64) -> (r: Vec<DiskIoStats>)
    ensures
        views(r@) == io_after(views(h@), cutoff),
{
    let ghost s = views(h@);
    let n = h.len();
    let mut r: Vec<DiskIoStats> = Vec::new();
    let mut i: usize = 0;
    while i < n
        invariant
            n == h@.len(),
            s == views(h@),
            i <= n,
            views(r@) == io_after(s.subrange(0, i as int), cutoff),
        decreases n - i,
    {
        assert(s.subrange(0, i + 1).drop_last() =~= s.subrange(0, i as int));
        if h[i].timestamp > cutoff {
            let ghost before = views(r@);
            r.push(h[i].dup());
            assert(views(r@) =~= before.push(s[i as int]));
        }
        i = i + 1;
    }
    assert(s.subrange(0, n as int) =~= s);
    r
}

fn device_entries(h: &Vec<DiskIoStats>, device: &str) -> (r: Vec<DiskIoStats>)
    ensures
        views(r@) == of_device(views(h@), device@),
{
    let ghost s = views(h@);
    let n = h.len();
    let mut r: Vec<DiskIoStats> = Vec::new();
    let mut i: usize = 0;
    while i < n
        invariant
            n == h@.len(),
            s == views(h@),
            i <= n,
            views(r@) == of_device(s.subrange(0, i as int), device@),
        decreases n - i,
    {
        assert(s.subrange(0, i + 1).drop_last() =~= s.subrange(0, i as int));
        if str_eq(h[i].device.as_str(), device) {
            let ghost before = views(r@);
            r.push(h[i].dup());
            assert(views(r@) =~= before.push(s[i as int]));
        }
        i = i + 1;
    }
    assert(s.subrange(0, n as int) =~= s);
    r
}

fn device_total(w: &Vec<DiskIoStats>, device: &str) -> (t: Option<u64>)
    ensures
        match t {
            Some(x) => x == device_io(views(w@), device@),
            None => device_io(views(w@), device@) > u64::MAX,
        },
{
    let ghost s = views(w@);
    let n = w.len();
    let mut rs: u64 = 0;
    let mut ws: u64 = 0;
    let mut i: usize = 0;
    while i < n
        invariant
            n == w@.len(),
            s == views(w@),
            i <= n,
            rs == byte_sum(of_device(s.subrange(0, i as int), device@), true),
            ws == byte_sum(of_device(s.subrange(0, i as int), device@), false),
        decreases n - i,
    {
        assert(s.subrange(0, i + 1).drop_last() =~= s.subrange(0, i as int));
        proof {
            lemma_device_sum_prefix(s, i + 1, device@, true);
            lemma_device_sum_prefix(s, i + 1, device@, false);
            let a = s.subrange(0, i as int);
            let b = s.subrange(0, i + 1);
            assert(b.last() == s[i as int]);
            if s[i as int].device == device@ {
                assert(of_device(b, device@) == of_device(a, device@).push(s[i as int]));
                assert(of_device(b, device@).drop_last() =~= of_device(a, device@));
            } else {
                assert(of_device(b, device@) == of_device(a, device@));
            }
        }
        if str_eq(w[i].device.as_str(), device) {
            if rs > u64::MAX - w[i].read_bytes_per_sec || ws > u64::MAX - w[i].write_bytes_per_sec {
                return None;
            }
            rs = rs + w[i].read_bytes_per_sec;
            ws = ws + w[i].write_bytes_per_sec;
        }
        i = i + 1;
    }
    assert(s.subrange(0, n as int) =~= s);
    if rs > u64::MAX - ws {
        return None;
    }
    Some(rs + ws)
}

impl DiskIoMonitor {
    /// The recorded rates, oldest first.
    pub closed spec fn history(&self) -> Seq<IoView> {
        views(self.io_history@)
    }

    /// The partition figures last recorded.
    pub closed spec fn partitions(&self) -> Seq<PartitionView> {
        views(self.partition_info@)
    }

    /// The byte counters last read, by device.
    pub closed spec fn counters(&self) -> Map<Seq<char>, (u64, u64)> {
        view_map(self.last_bytes)
    }

    /// When the last collection was made.
    pub closed spec fn last_time(&self) -> Option<u64> {
        self.last_sample_time
    }

    /// How many rate entries are kept.
    pub closed spec fn max_history(&self) -> usize {
        self.max_history_size
    }

    /// The thresholds, in the order added.
    pub closed spec fn threshold_list(&self) -> Seq<DiskAlertThreshold> {
        self.thresholds@
    }

    /// Nothing recorded; up to `max_history_size` rate entries are kept.
    pub fn new(max_history_size: usize) -> (m: DiskIoMonitor)
        ensures
            m.history() == Seq::<IoView>::empty(),
            m.partitions() == Seq::<PartitionView>::empty(),
            m.counters() == Map::<Seq<char>, (u64, u64)>::empty(),
            m.last_time() is None,
            m.max_history() == max_history_size,
            m.threshold_list() == Seq::<DiskAlertThreshold>::empty(),
    {
        let m = DiskIoMonitor {
            io_history: Vec::new(),
            partition_info: Vec::new(),
            max_history_size,
            thresholds: Vec::new(),
            last_sample_time: None,
            last_bytes: Store::new(),
        };
        assert(m.history() =~= Seq::<IoView>::empty());
        assert(m.partitions() =~= Seq::<PartitionView>::empty());
        assert(m.counters() =~= Map::<Seq<char>, (u64, u64)>::empty());
        m
    }

    /// Nothing recorded; a thousand rate entries are kept.
    pub fn with_default() -> (m: DiskIoMonitor)
        ensures
            m.history() == Seq::<IoView>::empty(),
            m.partitions() == Seq::<PartitionView>::empty(),
            m.counters() == Map::<Seq<char>, (u64, u64)>::empty(),
            m.last_time() is None,
            m.max_history() == 1000,
            m.threshold_list() == Seq::<DiskAlertThreshold>::empty(),
    {
        DiskIoMonitor::new(1000)
    }

    /// How many rate entries are kept.
    pub fn max_history_size(&self) -> (n: usize)
        ensures
            n == self.max_history(),
    {
        self.max_history_size
    }

    /// What the rates of `first`, the first device of a collection at `now`,
    /// are computed from, when it gets rates: the bytes read and written since
    /// its last reading (saturating at zero) and the milliseconds since the
    /// last collection.
    pub fn rate_query(&self, first: &DiskSample, now: u64) -> (r: Option<(u64, u64, u64)>)
        ensures
            match r {
                Some((rd, wr, ms)) => gets_rates(self.last_time(), self.counters(), first.device@, now)
                    && rd == first.read_bytes.saturating_sub(self.counters()[first.device@].0)
                    && wr == first.write_bytes.saturating_sub(self.counters()[first.device@].1)
                    && ms == now - self.last_time().unwrap(),
                None => !gets_rates(self.last_time(), self.counters(), first.device@, now),
            },
    {
        let last = match self.last_sample_time {
            Some(l) => l,
            None => return None,
        };
        if now <= last {
            return None;
        }
        match self.last_bytes.get(first.device.as_str()) {
            Some(c) => {
                assert(self.counters().dom().contains(first.device@));
                Some((first.read_bytes.saturating_sub(c.read_bytes), first.write_bytes.saturating_sub(c.write_bytes), now - last))
            }
            None => {
                assert(!self.counters().dom().contains(first.device@));
                None
            }
        }
    }

    /// Records the counters `samples` read at `now`. Only the first device can
    /// get rates (`first_rates`, see `rate_query`): every later device of the
    /// same collection sees the collection time already moved to `now`. A
    /// device with a nonzero rate is returned and joins the bounded history;
    /// every device's counters are kept for the next collection.
    pub fn collect_io_stats_at(&mut self, samples: Vec<DiskSample>, first_rates: (u64, u64), now: u64) -> (r: Vec<DiskIoStats>)
        ensures
            ({
                let sv = views(samples@);
                let rated = sv.len() > 0 && gets_rates(old(self).last_time(), old(self).counters(), sv[0].device, now)
                    && (first_rates.0 > 0 || first_rates.1 > 0);
                &&& views(r@) == if rated { seq![io_stats_of(sv[0].device, first_rates, now)] } else { Seq::<IoView>::empty() }
                &&& final(self).history() == if rated {
                        bounded_push(old(self).history(), old(self).max_history(), io_stats_of(sv[0].device, first_rates, now))
                    } else {
                        old(self).history()
                    }
                &&& final(self).counters() == counters_after(old(self).counters(), sv)
                &&& final(self).last_time() == if sv.len() > 0 { Some(now) } else { old(self).last_time() }
            }),
            final(self).partitions() == old(self).partitions(),
            final(self).max_history() == old(self).max_history(),
            final(self).threshold_list() == old(self).threshold_list(),
    {
        let ghost sv = views(samples@);
        let rated = samples.len() > 0 && self.rate_query(&samples[0], now).is_some() && (first_rates.0 > 0 || first_rates.1 > 0);
        let mut out: Vec<DiskIoStats> = Vec::new();
        if rated {
            out.push(DiskIoStats {
                device: samples[0].device.clone(),
                read_bytes_per_sec: first_rates.0,
                write_bytes_per_sec: first_rates.1,
                read_ops_per_sec: 0,
                write_ops_per_sec: 0,
                utilization_percent_bits: 0,
                queue_depth: 0,
                timestamp: now,
            });
            assert(views(out@) =~= seq![io_stats_of(sv[0].device, first_rates, now)]);
        } else {
            assert(views(out@) =~= Seq::<IoView>::empty());
        }
        let n = samples.len();
        let mut i: usize = 0;
        while i < n
            invariant
                n == samples@.len(),
                sv == views(samples@),
                i <= n,
                self.counters() == counters_after(old(self).counters(), sv.subrange(0, i as int)),
                self.history() == old(self).history(),
                self.partitions() == old(self).partitions(),
                self.max_history() == old(self).max_history(),
                self.threshold_list() == old(self).threshold_list(),
                self.last_time() == old(self).last_time(),
            decreases n - i,
        {
            assert(sv.subrange(0, i + 1).drop_last() =~= sv.subrange(0, i as int));
            let ghost before = self.counters();
            self.last_bytes.upsert(DeviceCounters {
                device: samples[i].device.clone(),
                read_bytes: samples[i].read_bytes,
                write_bytes: samples[i].write_bytes,
            });
            assert(self.counters() =~= before.insert(sv[i as int].device, (sv[i as int].read_bytes, sv[i as int].write_bytes)));
            i = i + 1;
        }
        assert(sv.subrange(0, n as int) =~= sv);
        if n > 0 {
            self.last_sample_time = Some(now);
        }
        if rated {
            let copy = out[0].dup();
            self.record_io_stats(copy);
        }
        out
    }

    /// Appends `stat` to the rate history, the oldest making way at the bound.
    pub fn record_io_stats(&mut self, stat: DiskIoStats)
        ensures
            final(self).history() == bounded_push(old(self).history(), old(self).max_history(), stat@),
            final(self).partitions() == old(self).partitions(),
            final(self).counters() == old(self).counters(),
            final(self).last_time() == old(self).last_time(),
            final(self).max_history() == old(self).max_history(),
            final(self).threshold_list() == old(self).threshold_list(),
    {
        let ghost before = self.history();
        let ghost sv = stat@;
        if self.io_history.len() >= self.max_history_size && self.io_history.len() > 0 {
            let _ = self.io_history.remove(0);
            assert(views(self.io_history@) =~= before.drop_first());
        }
        let ghost mid = views(self.io_history@);
        self.io_history.push(stat);
        assert(self.history() =~= mid.push(sv));
    }

    /// Keeps `partitions` as the current partition figures and returns a copy.
    pub fn record_partitions(&mut self, partitions: Vec<DiskPartitionInfo>) -> (r: Vec<DiskPartitionInfo>)
        ensures
            final(self).partitions() == views(partitions@),
            views(r@) == views(partitions@),
            final(self).history() == old(self).history(),
            final(self).counters() == old(self).counters(),
            final(self).last_time() == old(self).last_time(),
            final(self).max_history() == old(self).max_history(),
            final(self).threshold_list() == old(self).threshold_list(),
    {
        let r = dup_vec(&partitions);
        self.partition_info = partitions;
        r
    }

    /// Copies of the current partition figures.
    pub fn get_partition_info(&self) -> (r: Vec<DiskPartitionInfo>)
        ensures
            views(r@) == self.partitions(),
    {
        dup_vec(&self.partition_info)
    }

    /// Copies of the newest `limit` entries (of `device` only, when given), newest first.
    pub fn get_io_history(&self, device: Option<&str>, limit: usize) -> (r: Vec<DiskIoStats>)
        ensures
            views(r@) == newest(match device { Some(d) => of_device(self.history(), d@), None => self.history() }, limit as nat),
    {
        match device {
            Some(d) => {
                let entries = device_entries(&self.io_history, d);
                newest_dup(&entries, limit)
            }
            None => newest_dup(&self.io_history, limit),
        }
    }

    /// The read and write rates added up over the entries of the last
    /// `duration_secs` seconds before `now`, and how many entries there are
    /// (the caller divides for averages); none when a sum does not fit.
    pub fn get_total_io_stats_at(&self, duration_secs: u64, now: u64) -> (r: Option<(u64, u64, usize)>)
        ensures
            ({
                let w = io_after(self.history(), seconds_before(now, duration_secs));
                match r {
                    Some((rd, wr, n)) => rd == byte_sum(w, true) && wr == byte_sum(w, false) && n == w.len(),
                    None => byte_sum(w, true) > u64::MAX || byte_sum(w, false) > u64::MAX,
                }
            }),
    {
        let cutoff = time_seconds_before(now, duration_secs);
        let w = window_of(&self.io_history, cutoff);
        let ghost s = views(w@);
        let n = w.len();
        let mut rs: u64 = 0;
        let mut ws: u64 = 0;
        let mut i: usize = 0;
        while i < n
            invariant
                n == w@.len(),
                s == views(w@),
                i <= n,
                s == io_after(self.history(), seconds_before(now, duration_secs)),
                rs == byte_sum(s.subrange(0, i as int), true),
                ws == byte_sum(s.subrange(0, i as int), false),
            decreases n - i,
        {
            assert(s.subrange(0, i + 1).drop_last() =~= s.subrange(0, i as int));
            proof {
                lemma_byte_sum_prefix(s, i + 1, true);
                lemma_byte_sum_prefix(s, i + 1, false);
            }
            if rs > u64::MAX - w[i].read_bytes_per_sec || ws > u64::MAX - w[i].write_bytes_per_sec {
                proof {
                    assert(s.subrange(0, i + 1).last() == s[i as int]);
                    assert(s == io_after(self.history(), seconds_before(now, duration_secs)));
                }
                return None;
            }
            rs = rs + w[i].read_bytes_per_sec;
            ws = ws + w[i].write_bytes_per_sec;
            i = i + 1;
        }
        assert(s.subrange(0, n as int) =~= s);
        Some((rs, ws, n))
    }

    /// Adds a threshold.
    pub fn add_threshold(&mut self, threshold: DiskAlertThreshold)
        ensures
            final(self).threshold_list() == old(self).threshold_list().push(threshold),
            final(self).history() == old(self).history(),
            final(self).partitions() == old(self).partitions(),
            final(self).counters() == old(self).counters(),
            final(self).last_time() == old(self).last_time(),
            final(self).max_history() == old(self).max_history(),
    {
        self.thresholds.push(threshold);
    }

    /// The enabled thresholds, in order, as (metric, threshold bits).
    pub fn enabled_thresholds(&self) -> (r: Vec<(DiskAlertMetric, u64)>)
        ensures
            r@ == enabled_of(self.threshold_list()),
    {
        let ghost s = self.thresholds@;
        let n = self.thresholds.len();
        let mut r: Vec<(DiskAlertMetric, u64)> = Vec::new();
        let mut i: usize = 0;
        while i < n
            invariant
                n == s.len(),
                s == self.thresholds@,
                i <= n,
                r@ == enabled_of(s.subrange(0, i as int)),
            decreases n - i,
        {
            assert(s.subrange(0, i + 1).drop_last() =~= s.subrange(0, i as int));
            let t = &self.thresholds[i];
            if t.enabled {
                r.push((t.metric, t.threshold_value_bits));
            }
            i = i + 1;
        }
        assert(s.subrange(0, n as int) =~= s);
        r
    }

    /// The health of `device` as far as it is known now: unknown, with no figures.
    pub fn get_disk_health(&self, device: &str) -> (h: DiskHealthStatus)
        ensures
            h.device@ == device@,
            h.health == DiskHealth::Unknown,
            h.temperature_bits is None && h.power_on_hours is None && h.reallocated_sectors is None,
            h.pending_sectors is None && h.uncorrectable_errors is None,
    {
        DiskHealthStatus {
            device: owned(device),
            health: DiskHealth::Unknown,
            temperature_bits: None,
            power_on_hours: None,
            reallocated_sectors: None,
            pending_sectors: None,
            uncorrectable_errors: None,
            timestamp: now_millis_unsigned(),
        }
    }

    /// The devices whose read and write rates over the minute before `now`
    /// add up to more than `threshold_mbps` mebibytes (see `lists_busy`);
    /// none when a device's total does not fit, or when the minute holds
    /// entries and the limit in bytes does not fit.
    pub fn get_high_io_devices_at(&self, threshold_mbps: u64, now: u64) -> (r: Option<Vec<String>>)
        ensures
            ({
                let w = io_after(self.history(), seconds_before(now, 60));
                match r {
                    Some(v) => lists_busy(crate::text::strings_view(v@), w, threshold_mbps * 1048576),
                    None => (exists|d: Seq<char>| device_io(w, d) > u64::MAX) || (w.len() > 0 && threshold_mbps * 1048576 > u64::MAX),
                }
            }),
    {
        let cutoff = time_seconds_before(now, 60);
        let w = window_of(&self.io_history, cutoff);
        let ghost s = views(w@);
        let n = w.len();
        if n == 0 {
            let r: Vec<String> = Vec::new();
            proof {
                assert forall|d: Seq<char>| #[trigger] crate::text::strings_view(r@).contains(d)
                    <==> (has_device(s, d) && device_io(s, d) > threshold_mbps * 1048576) by {
                    assert(crate::text::strings_view(r@) =~= Seq::<Seq<char>>::empty());
                }
            }
            return Some(r);
        }
        if threshold_mbps > u64::MAX / 1048576 {
            return None;
        }
        let limit = threshold_mbps * 1048576;
        let mut seen: Vec<String> = Vec::new();
        let mut r: Vec<String> = Vec::new();
        let mut i: usize = 0;
        while i < n
            invariant
                n == w@.len(),
                s == views(w@),
                i <= n,
                s == io_after(self.history(), seconds_before(now, 60)),
                limit == threshold_mbps * 1048576,
                forall|a: int, b: int| 0 <= a < seen@.len() && 0 <= b < seen@.len() && a != b ==> #[trigger] seen@[a]@ != #[trigger] seen@[b]@,
                forall|d: Seq<char>| #[trigger] crate::text::strings_view(seen@).contains(d) <==> has_device(s.subrange(0, i as int), d),
                forall|a: int, b: int| 0 <= a < r@.len() && 0 <= b < r@.len() && a != b ==> #[trigger] r@[a]@ != #[trigger] r@[b]@,
                forall|d: Seq<char>| #[trigger] crate::text::strings_view(r@).contains(d)
                    <==> (has_device(s.subrange(0, i as int), d) && device_io(s, d) > limit),
            decreases n - i,
        {
            let dev = w[i].device.as_str();
            let ghost sub = s.subrange(0, i as int);
            let ghost sub1 = s.subrange(0, i + 1);
            assert forall|d: Seq<char>| has_device(sub1, d) <==> (has_device(sub, d) || d == dev@) by {
                if has_device(sub1, d) {
                    let k = choose|k: int| 0 <= k < sub1.len() && #[trigger] sub1[k].device == d;
                    if k < i { assert(sub[k].device == d); }
                }
                if has_device(sub, d) {
                    let k = choose|k: int| 0 <= k < sub.len() && #[trigger] sub[k].device == d;
                    assert(sub1[k].device == d);
                }
                if d == dev@ { assert(sub1[i as int].device == d); }
            }
            if !crate::text::contains_str(&seen, dev) {
                let ghost sv0 = crate::text::strings_view(seen@);
                let ghost rv0 = crate::text::strings_view(r@);
                seen.push(owned(dev));
                assert(crate::text::strings_view(seen@) =~= sv0.push(dev@));
                assert forall|d: Seq<char>| #[trigger] sv0.push(dev@).contains(d) <==> (sv0.contains(d) || d == dev@) by {
                    if sv0.push(dev@).contains(d) {
                        let k = choose|k: int| 0 <= k < sv0.push(dev@).len() && sv0.push(dev@)[k] == d;
                        if k < sv0.len() { assert(sv0[k] == d); }
                    }
                    if sv0.contains(d) {
                        let k = choose|k: int| 0 <= k < sv0.len() && sv0[k] == d;
                        assert(sv0.push(dev@)[k] == d);
                    }
                    if d == dev@ { assert(sv0.push(dev@)[sv0.len() as int] == d); }
                }
                assert forall|d: Seq<char>| #[trigger] rv0.push(dev@).contains(d) <==> (rv0.contains(d) || d == dev@) by {
                    if rv0.push(dev@).contains(d) {
                        let k = choose|k: int| 0 <= k < rv0.push(dev@).len() && rv0.push(dev@)[k] == d;
                        if k < rv0.len() { assert(rv0[k] == d); }
                    }
                    if rv0.contains(d) {
                        let k = choose|k: int| 0 <= k < rv0.len() && rv0[k] == d;
                        assert(rv0.push(dev@)[k] == d);
                    }
                    if d == dev@ { assert(rv0.push(dev@)[rv0.len() as int] == d); }
                }
                assert forall|a: int, b: int| 0 <= a < seen@.len() && 0 <= b < seen@.len() && a != b implies #[trigger] seen@[a]@ != #[trigger] seen@[b]@ by {
                    if a == seen@.len() - 1 { assert(sv0[b] == seen@[b]@); }
                    if b == seen@.len() - 1 { assert(sv0[a] == seen@[a]@); }
                }
                let total = match device_total(&w, dev) {
                    Some(t) => t,
                    None => {
                        proof {
                            assert(s == io_after(self.history(), seconds_before(now, 60)));
                            assert(device_io(s, dev@) > u64::MAX);
                        }
                        return None;
                    }
                };
                if total > limit {
                    r.push(owned(dev));
                    assert(crate::text::strings_view(r@) =~= rv0.push(dev@));
                    assert(!rv0.contains(dev@));
                    assert forall|a: int, b: int| 0 <= a < r@.len() && 0 <= b < r@.len() && a != b implies #[trigger] r@[a]@ != #[trigger] r@[b]@ by {
                        if a == r@.len() - 1 { assert(rv0[b] == r@[b]@); }
                        if b == r@.len() - 1 { assert(rv0[a] == r@[a]@); }
                    }
                }
            }
            i = i + 1;
        }
        assert(s.subrange(0, n as int) =~= s);
        Some(r)
    }

    /// The read and write operation rates of `device` added up over the last
    /// `duration_secs` seconds before `now`; none when a sum does not fit.
    pub fn calculate_disk_iops_at(&self, device: &str, duration_secs: u64, now: u64) -> (r: Option<(u64, u64)>)
        ensures
            ({
                let e = of_device(io_after(self.history(), seconds_before(now, duration_secs)), device@);
                match r {
                    Some((rd, wr)) => rd == ops_sum(e, true) && wr == ops_sum(e, false),
                    None => ops_sum(e, true) > u64::MAX || ops_sum(e, false) > u64::MAX,
                }
            }),
    {
        let cutoff = time_seconds_before(now, duration_secs);
        let w = window_of(&self.io_history, cutoff);
        let e = device_entries(&w, device);
        let ghost s = views(e@);
        let n = e.len();
        let mut rs: u64 = 0;
        let mut ws: u64 = 0;
        let mut i: usize = 0;
        while i < n
            invariant
                n == e@.len(),
                s == views(e@),
                i <= n,
                s == of_device(io_after(self.history(), seconds_before(now, duration_secs)), device@),
                rs == ops_sum(s.subrange(0, i as int), true),
                ws == ops_sum(s.subrange(0, i as int), false),
            decreases n - i,
        {
            assert(s.subrange(0, i + 1).drop_last() =~= s.subrange(0, i as int));
            proof {
                lemma_ops_sum_prefix(s, i + 1, true);
                lemma_ops_sum_prefix(s, i + 1, false);
            }
            if rs > u64::MAX - e[i].read_ops_per_sec || ws > u64::MAX - e[i].write_ops_per_sec {
                proof {
                    assert(s.subrange(0, i + 1).last() == s[i as int]);
                    assert(s == of_device(io_after(self.history(), seconds_before(now, duration_secs)), device@));
                }
                return None;
            }
            rs = rs + e[i].read_ops_per_sec;
            ws = ws + e[i].write_ops_per_sec;
            i = i + 1;
        }
        assert(s.subrange(0, n as int) =~= s);
        Some((rs, ws))
    }

    /// The utilisation (a double's bit pattern) of the newest entry of
    /// `device`, or 0 (the pattern of 0.0) when it has none.
    pub fn get_io_utilization(&self, device: &str) -> (u: u64)
        ensures
            u == (if of_device(self.history(), device@).len() == 0 { 0 } else { of_device(self.history(), device@).last().utilization_percent_bits }),
    {
        let e = device_entries(&self.io_history, device);
        if e.len() == 0 {
            0
        } else {
            e[e.len() - 1].utilization_percent_bits
        }
    }
}

/// The enabled thresholds of `s`, in order, as (metric, threshold bits).
pub open spec fn enabled_of(s: Seq<DiskAlertThreshold>) -> Seq<(DiskAlertMetric, u64)>
    decreases s.len(),
{
    if s.len() == 0 {
        seq![]
    } else if s.last().enabled {
        enabled_of(s.drop_last()).push((s.last().metric, s.last().threshold_value_bits))
    } else {
        enabled_of(s.drop_last())
    }
}

/// Recording a collection never takes the rate history past its bound (when
/// the bound is at least one).
pub proof fn law_io_history_bounded(m1: DiskIoMonitor, m2: DiskIoMonitor, x: IoView)
    requires
        m2.history() == bounded_push(m1.history(), m1.max_history(), x),
        m1.max_history() > 0,
        m1.history().len() <= m1.max_history(),
    ensures
        m2.history().len() <= m1.max_history(),
        newest(m2.history(), 1) == seq![x],
{
    assert(newest(m2.history(), 1) =~= seq![x]);
}

// ---------------------------------------------------------------------------
// The kernel's disk statistics
// ---------------------------------------------------------------------------

/// `s` begins with `p`.
pub open spec fn begins_with(s: Seq<char>, p: Seq<char>) -> bool {
    s.len() >= p.len() && s.take(p.len() as int) == p
}

/// Whether the characters `s` begin with `p`.
pub fn begins_with_exec(s: &Vec<char>, p: &str) -> (b: bool)
    ensures
        b == begins_with(s@, p@),
{
    let m = p.unicode_len();
    if s.len() < m {
        return false;
    }
    let mut i: usize = 0;
    while i < m
        invariant
            m == p@.len(),
            m <= s@.len(),
            i <= m,
            forall|k: int| 0 <= k < i ==> s@[k] == p@[k],
        decreases m - i,
    {
        if s[i] != p.get_char(i) {
            assert(s@.take(m as int)[i as int] != p@[i as int]);
            return false;
        }
        i = i + 1;
    }
    assert(s@.take(m as int) =~= p@);
    true
}

/// The sector count a field gives: its number, or zero when it is none.
pub open spec fn sectors(field: Seq<char>) -> nat {
    match parsed_u64(field) {
        Some(v) => v as nat,
        None => 0,
    }
}

/// What a line of the kernel's disk statistics, split into its fields `ws`,
/// gives: for a line of at least fourteen fields whose device (the third
/// field) is neither a loop nor a RAM device, the device with the bytes read
/// and written (the sixth and tenth fields count 512-byte sectors).
pub open spec fn line_sample(ws: Seq<Seq<char>>) -> Option<(Seq<char>, nat, nat)> {
    if ws.len() >= 14 && !begins_with(ws[2], "loop"@) && !begins_with(ws[2], "ram"@) {
        Some((ws[2], sectors(ws[5]) * 512, sectors(ws[9]) * 512))
    } else {
        None
    }
}

/// What the lines `lines` give, in order.
pub open spec fn stat_samples(lines: Seq<Seq<char>>) -> Seq<(Seq<char>, nat, nat)>
    decreases lines.len(),
{
    if lines.len() == 0 {
        seq![]
    } else {
        match line_sample(words(lines.last())) {
            Some(x) => stat_samples(lines.drop_last()).push(x),
            None => stat_samples(lines.drop_last()),
        }
    }
}

/// Every byte count of `s` fits in 64 bits.
pub open spec fn samples_fit(s: Seq<(Seq<char>, nat, nat)>) -> bool {
    forall|i: int| 0 <= i < s.len() ==> #[trigger] sample_fits(s[i])
}

/// Both byte counts of a sample fit in 64 bits.
pub open spec fn sample_fits(x: (Seq<char>, nat, nat)) -> bool {
    x.1 <= u64::MAX && x.2 <= u64::MAX
}

/// `v` holds the samples `t`, in order.
pub open spec fn holds_samples(v: Seq<DiskSampleView>, t: Seq<(Seq<char>, nat, nat)>) -> bool {
    v.len() == t.len() && forall|i: int| 0 <= i < v.len() ==> #[trigger] v[i].device == t[i].0
        && v[i].read_bytes == t[i].1 && v[i].write_bytes == t[i].2
}

fn sector_bytes(field: &Vec<char>) -> (r: Option<u64>)
    ensures
        match r {
            Some(b) => b == sectors(field@) * 512,
            None => sectors(field@) * 512 > u64::MAX,
        },
{
    let n = match parse_u64(field) {
        Some(v) => v,
        None => 0,
    };
    if n > u64::MAX / 512 {
        None
    } else {
        Some(n * 512)
    }
}

/// The samples of the kernel's disk statistics text `content` (see
/// `stat_samples`), or none when a byte count does not fit in 64 bits.
pub fn parse_disk_stats(content: &str) -> (r: Option<Vec<DiskSample>>)
    ensures
        match r {
            Some(v) => samples_fit(stat_samples(pieces(content@))) && holds_samples(views(v@), stat_samples(pieces(content@))),
            None => !samples_fit(stat_samples(pieces(content@))),
        },
{
    let chars = chars_of(content);
    let lines = split_lines(&chars);
    let ghost ls = char_vecs(lines@);
    let n = lines.len();
    let mut out: Vec<DiskSample> = Vec::new();
    let mut i: usize = 0;
    while i < n
        invariant
            n == lines@.len(),
            ls == char_vecs(lines@),
            ls == pieces(content@),
            i <= n,
            samples_fit(stat_samples(ls.take(i as int))),
            holds_samples(views(out@), stat_samples(ls.take(i as int))),
        decreases n - i,
    {
        let ghost t0 = stat_samples(ls.take(i as int));
        proof {
            assert(ls.take(i + 1).drop_last() =~= ls.take(i as int));
            assert(ls.take(i + 1).last() == lines@[i as int]@);
        }
        let ws = split_words(&lines[i]);
        let ghost wv = char_vecs(ws@);
        if ws.len() >= 14 && !begins_with_exec(&ws[2], "loop") && !begins_with_exec(&ws[2], "ram") {
            assert(wv[2] == ws@[2]@ && wv[5] == ws@[5]@ && wv[9] == ws@[9]@);
            let rd = sector_bytes(&ws[5]);
            let wr = sector_bytes(&ws[9]);
            let ghost t1 = t0.push((wv[2], sectors(wv[5]) * 512, sectors(wv[9]) * 512));
            assert(stat_samples(ls.take(i + 1)) == t1);
            match (rd, wr) {
                (Some(rb), Some(wb)) => {
                    let ghost before = views(out@);
                    out.push(DiskSample { device: string_from_chars(&ws[2]), read_bytes: rb, write_bytes: wb });
                    assert(views(out@) =~= before.push(DiskSampleView { device: wv[2], read_bytes: rb, write_bytes: wb }));
                    assert(samples_fit(t1)) by {
                        assert forall|k: int| 0 <= k < t1.len() implies #[trigger] sample_fits(t1[k]) by {
                            if k < t0.len() { assert(t1[k] == t0[k]); }
                        }
                    }
                    assert(holds_samples(views(out@), t1)) by {
                        assert forall|k: int| 0 <= k < views(out@).len() implies #[trigger] views(out@)[k].device == t1[k].0
                            && views(out@)[k].read_bytes == t1[k].1 && views(out@)[k].write_bytes == t1[k].2 by {
                            if k < t0.len() { assert(t1[k] == t0[k]); assert(views(out@)[k] == before[k]); }
                        }
                    }
                }
                _ => {
                    proof {
                        let k = t0.len() as int;
                        assert(t1[k] == (wv[2], sectors(wv[5]) * 512, sectors(wv[9]) * 512));
                        assert(!sample_fits(t1[k]));
                        assert(!samples_fit(t1));
                        if samples_fit(stat_samples(ls)) {
                            lemma_samples_fit_extend(ls, i as int + 1, content@);
                        }
                    }
                    return None;
                }
            }
        } else {
            assert(stat_samples(ls.take(i + 1)) == t0);
        }
        i = i + 1;
    }
    assert(ls.take(n as int) =~= ls);
    Some(out)
}

proof fn lemma_samples_fit_extend(ls: Seq<Seq<char>>, j: int, content: Seq<char>)
    requires
        0 <= j <= ls.len(),
        samples_fit(stat_samples(ls)),
    ensures
        samples_fit(stat_samples(ls.take(j))),
    decreases ls.len() - j,
{
    if j < ls.len() {
        lemma_samples_fit_extend(ls, j + 1, content);
        let a = ls.take(j);
        let b = ls.take(j + 1);
        assert(b.drop_last() =~= a);
        let sb = stat_samples(b);
        let sa = stat_samples(a);
        assert forall|k: int| 0 <= k < sa.len() implies #[trigger] sample_fits(sa[k]) by {
            assert(sb[k] == sa[k]);
        }
    } else {
        assert(ls.take(j) =~= ls);
    }
}

} // verus!
