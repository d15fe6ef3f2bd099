//! Network monitoring: per-interface statistics from counter samples, the
//! bandwidth history of each interface, peak rates and bandwidth alerts. The
//! counters are read from the system by the owner; times are milliseconds.
use vstd::prelude::*;
use crate::keyed::{Keyed, Store, lemma_store_keys};
use crate::text::{owned, str_eq, opt_view};
use crate::dup::{Duplicate, views};
use crate::monitor::deadlock::bounded_push;
use crate::security::audit_log::newest;

verus! {

/// Rates and error counts of one interface at one moment.
pub struct NetworkInterfaceStats {
    pub interface: String,
    pub rx_bytes_per_sec: u64,
    pub tx_bytes_per_sec: u64,
    pub rx_packets_per_sec: u64,
    pub tx_packets_per_sec: u64,
    pub rx_errors: u64,
    pub tx_errors: u64,
    pub rx_dropped: u64,
    pub tx_dropped: u64,
    pub timestamp: u64,
}

/// The plain content of interface statistics.
pub struct StatsView {
    pub interface: Seq<char>,
    pub rx_bytes_per_sec: u64,
    pub tx_bytes_per_sec: u64,
    pub rx_packets_per_sec: u64,
    pub tx_packets_per_sec: u64,
    pub rx_errors: u64,
    pub tx_errors: u64,
    pub rx_dropped: u64,
    pub tx_dropped: u64,
    pub timestamp: u64,
}

impl View for NetworkInterfaceStats {
    type V = StatsView;

    open spec fn view(&self) -> StatsView {
        StatsView {
            interface: self.interface@,
            rx_bytes_per_sec: self.rx_bytes_per_sec,
            tx_bytes_per_sec: self.tx_bytes_per_sec,
            rx_packets_per_sec: self.rx_packets_per_sec,
            tx_packets_per_sec: self.tx_packets_per_sec,
            rx_errors: self.rx_errors,
            tx_errors: self.tx_errors,
            rx_dropped: self.rx_dropped,
            tx_dropped: self.tx_dropped,
            timestamp: self.timestamp,
        }
    }
}

impl Duplicate for NetworkInterfaceStats {
    fn dup(&self) -> (r: NetworkInterfaceStats) {
        NetworkInterfaceStats {
            interface: self.interface.clone(),
            rx_bytes_per_sec: self.rx_bytes_per_sec,
            tx_bytes_per_sec: self.tx_bytes_per_sec,
            rx_packets_per_sec: self.rx_packets_per_sec,
            tx_packets_per_sec: self.tx_packets_per_sec,
            rx_errors: self.rx_errors,
            tx_errors: self.tx_errors,
            rx_dropped: self.rx_dropped,
            tx_dropped: self.tx_dropped,
            timestamp: self.timestamp,
        }
    }
}

/// Bandwidth of one interface at one moment; the utilisation is an IEEE
/// double bit pattern.
pub struct BandwidthUsage {
    pub interface: String,
    pub current_rx_bps: u64,
    pub current_tx_bps: u64,
    pub avg_rx_bps: u64,
    pub avg_tx_bps: u64,
    pub peak_rx_bps: u64,
    pub peak_tx_bps: u64,
    pub total_rx_bytes: u64,
    pub total_tx_bytes: u64,
    pub utilization_percent_bits: u64,
    pub timestamp: u64,
}

/// The plain content of a bandwidth record.
pub struct UsageView {
    pub interface: Seq<char>,
    pub current_rx_bps: u64,
    pub current_tx_bps: u64,
    pub avg_rx_bps: u64,
    pub avg_tx_bps: u64,
    pub peak_rx_bps: u64,
    pub peak_tx_bps: u64,
    pub total_rx_bytes: u64,
    pub total_tx_bytes: u64,
    pub utilization_percent_bits: u64,
    pub timestamp: u64,
}

impl View for BandwidthUsage {
    type V = UsageView;

    open spec fn view(&self) -> UsageView {
        UsageView {
            interface: self.interface@,
            current_rx_bps: self.current_rx_bps,
            current_tx_bps: self.current_tx_bps,
            avg_rx_bps: self.avg_rx_bps,
            avg_tx_bps: self.avg_tx_bps,
            peak_rx_bps: self.peak_rx_bps,
            peak_tx_bps: self.peak_tx_bps,
            total_rx_bytes: self.total_rx_bytes,
            total_tx_bytes: self.total_tx_bytes,
            utilization_percent_bits: self.utilization_percent_bits,
            timestamp: self.timestamp,
        }
    }
}

impl Duplicate for BandwidthUsage {
    fn dup(&self) -> (r: BandwidthUsage) {
        BandwidthUsage {
            interface: self.interface.clone(),
            current_rx_bps: self.current_rx_bps,
            current_tx_bps: self.current_tx_bps,
            avg_rx_bps: self.avg_rx_bps,
            avg_tx_bps: self.avg_tx_bps,
            peak_rx_bps: self.peak_rx_bps,
            peak_tx_bps: self.peak_tx_bps,
            total_rx_bytes: self.total_rx_bytes,
            total_tx_bytes: self.total_tx_bytes,
            utilization_percent_bits: self.utilization_percent_bits,
            timestamp: self.timestamp,
        }
    }
}

/// A transport protocol.
#[derive(Clone, Copy, PartialEq, Eq, Structural, Debug)]
pub enum Protocol {
    Tcp,
    Udp,
    Icmp,
    Unknown,
}

/// The state of a connection.
#[derive(Clone, Copy, PartialEq, Eq, Structural, Debug)]
pub enum ConnectionState {
    Established,
    Listen,
    TimeWait,
    CloseWait,
    SynSent,
    SynReceived,
    FinWait1,
    FinWait2,
    Closing,
    Closed,
    Unknown,
}

/// A network connection.
pub struct NetworkConnectionInfo {
    pub protocol: Protocol,
    pub local_addr: String,
    pub remote_addr: Option<String>,
    pub state: ConnectionState,
    pub process_id: Option<u32>,
    pub process_name: Option<String>,
}

/// What a network alert watches.
#[derive(Clone, Copy, PartialEq, Eq, Structural, Debug)]
pub enum NetworkAlertType {
    RxBandwidthHigh,
    TxBandwidthHigh,
    TotalBandwidthHigh,
    PacketLoss,
    ErrorRate,
}

/// A network alert rule: a limit, optionally for one interface.
pub struct NetworkAlertConfig {
    pub alert_type: NetworkAlertType,
    pub threshold_bps: u64,
    pub interface: Option<String>,
    pub enabled: bool,
}

/// The plain content of an alert rule.
pub struct AlertConfigView {
    pub alert_type: NetworkAlertType,
    pub threshold_bps: u64,
    pub interface: Option<Seq<char>>,
    pub enabled: bool,
}

impl View for NetworkAlertConfig {
    type V = AlertConfigView;

    open spec fn view(&self) -> AlertConfigView {
        AlertConfigView {
            alert_type: self.alert_type,
            threshold_bps: self.threshold_bps,
            interface: opt_view(self.interface),
            enabled: self.enabled,
        }
    }
}

/// The interfaces at one moment with the total rates.
pub struct NetworkSnapshot {
    pub interfaces: Vec<NetworkInterfaceStats>,
    pub total_rx_bps: u64,
    pub total_tx_bps: u64,
    pub active_connections: usize,
    pub timestamp: u64,
}

/// The counters of one interface as read from the system.
pub struct InterfaceSample {
    pub interface: String,
    pub rx_bytes: u64,
    pub tx_bytes: u64,
    pub rx_packets: u64,
    pub tx_packets: u64,
    pub rx_errors: u64,
    pub tx_errors: u64,
    pub rx_dropped: u64,
    pub tx_dropped: u64,
}

/// The plain content of a counter sample.
pub struct SampleView {
    pub interface: Seq<char>,
    pub rx_bytes: u64,
    pub tx_bytes: u64,
    pub rx_packets: u64,
    pub tx_packets: u64,
    pub rx_errors: u64,
    pub tx_errors: u64,
    pub rx_dropped: u64,
    pub tx_dropped: u64,
}

impl View for InterfaceSample {
    type V = SampleView;

    open spec fn view(&self) -> SampleView {
        SampleView {
            interface: self.interface@,
            rx_bytes: self.rx_bytes,
            tx_bytes: self.tx_bytes,
            rx_packets: self.rx_packets,
            tx_packets: self.tx_packets,
            rx_errors: self.rx_errors,
            tx_errors: self.tx_errors,
            rx_dropped: self.rx_dropped,
            tx_dropped: self.tx_dropped,
        }
    }
}

impl Duplicate for InterfaceSample {
    fn dup(&self) -> (r: InterfaceSample) {
        InterfaceSample {
            interface: self.interface.clone(),
            rx_bytes: self.rx_bytes,
            tx_bytes: self.tx_bytes,
            rx_packets: self.rx_packets,
            tx_packets: self.tx_packets,
            rx_errors: self.rx_errors,
            tx_errors: self.tx_errors,
            rx_dropped: self.rx_dropped,
            tx_dropped: self.tx_dropped,
        }
    }
}

/// The plain content of a snapshot.
pub struct SnapshotView {
    pub interfaces: Seq<StatsView>,
    pub total_rx_bps: u64,
    pub total_tx_bps: u64,
    pub active_connections: usize,
    pub timestamp: u64,
}

impl View for NetworkSnapshot {
    type V = SnapshotView;

    open spec fn view(&self) -> SnapshotView {
        SnapshotView {
            interfaces: views(self.interfaces@),
            total_rx_bps: self.total_rx_bps,
            total_tx_bps: self.total_tx_bps,
            active_connections: self.active_connections,
            timestamp: self.timestamp,
        }
    }
}

/// The counters last read for one interface.
pub struct LastCounters {
    pub interface: String,
    pub rx_bytes: u64,
    pub tx_bytes: u64,
    pub rx_packets: u64,
    pub tx_packets: u64,
}

impl Keyed for LastCounters {
    open spec fn key_view(&self) -> Seq<char> {
        self.interface@
    }

    fn key_str(&self) -> (r: &str) {
        self.interface.as_str()
    }
}

/// The bandwidth history of one interface, oldest first.
pub struct BandwidthSeries {
    pub interface: String,
    pub entries: Vec<BandwidthUsage>,
}

impl Keyed for BandwidthSeries {
    open spec fn key_view(&self) -> Seq<char> {
        self.interface@
    }

    fn key_str(&self) -> (r: &str) {
        self.interface.as_str()
    }
}

// ---------------------------------------------------------------------------
// What a collection does
// ---------------------------------------------------------------------------

/// Whether the first interface of a collection at `now` gets packet rates:
/// there was an earlier collection, before `now`, that read this interface.
pub open spec fn gets_rates(last: Option<u64>, counters: Map<Seq<char>, (u64, u64, u64, u64)>, name: Seq<char>, now: u64) -> bool {
    &&& last matches Some(l) && now > l
    &&& counters.dom().contains(name)
}

/// The statistics recorded for sample `s` at `now`, with the given packet
/// rates; byte rates are recorded as zero.
pub open spec fn stats_of(s: SampleView, rx_pps: u64, tx_pps: u64, now: u64) -> StatsView {
    StatsView {
        interface: s.interface,
        rx_bytes_per_sec: 0,
        tx_bytes_per_sec: 0,
        rx_packets_per_sec: rx_pps,
        tx_packets_per_sec: tx_pps,
        rx_errors: s.rx_errors,
        tx_errors: s.tx_errors,
        rx_dropped: s.rx_dropped,
        tx_dropped: s.tx_dropped,
        timestamp: now,
    }
}

/// The statistics of a collection of `samples` at `now`: only the first gets
/// the packet rates `rates`, and only when `rated`.
pub open spec fn produced(samples: Seq<SampleView>, rated: bool, rates: (u64, u64), now: u64) -> Seq<StatsView> {
    Seq::new(samples.len(), |i: int| stats_of(samples[i],
        if i == 0 && rated { rates.0 } else { 0 }, if i == 0 && rated { rates.1 } else { 0 }, now))
}

/// History `h` after appending each of `s` in turn, keeping up to `max`.
pub open spec fn history_after(h: Seq<StatsView>, max: usize, s: Seq<StatsView>) -> Seq<StatsView>
    decreases s.len(),
{
    if s.len() == 0 { h } else { bounded_push(history_after(h, max, s.drop_last()), max, s.last()) }
}

/// The last counters `c` after reading each of `samples` in turn.
pub open spec fn counters_after(c: Map<Seq<char>, (u64, u64, u64, u64)>, samples: Seq<SampleView>) -> Map<Seq<char>, (u64, u64, u64, u64)>
    decreases samples.len(),
{
    if samples.len() == 0 {
        c
    } else {
        let l = samples.last();
        counters_after(c, samples.drop_last()).insert(l.interface, (l.rx_bytes, l.tx_bytes, l.rx_packets, l.tx_packets))
    }
}

/// The bandwidth recorded for sample `s` at `now` with peaks `peaks`.
pub open spec fn usage_of(s: SampleView, peaks: (u64, u64), now: u64) -> UsageView {
    UsageView {
        interface: s.interface,
        current_rx_bps: 0,
        current_tx_bps: 0,
        avg_rx_bps: 0,
        avg_tx_bps: 0,
        peak_rx_bps: peaks.0,
        peak_tx_bps: peaks.1,
        total_rx_bytes: s.rx_bytes,
        total_tx_bytes: s.tx_bytes,
        utilization_percent_bits: 0,
        timestamp: now,
    }
}

/// The bandwidth history of interface `name` in `bw` (empty when none).
pub open spec fn series_of(bw: Map<Seq<char>, Seq<UsageView>>, name: Seq<char>) -> Seq<UsageView> {
    if bw.dom().contains(name) { bw[name] } else { seq![] }
}

/// Bandwidth histories `bw` after recording each of `samples` in turn.
pub open spec fn bandwidth_after(bw: Map<Seq<char>, Seq<UsageView>>, max: usize, samples: Seq<SampleView>, peaks: (u64, u64), now: u64)
    -> Map<Seq<char>, Seq<UsageView>>
    decreases samples.len(),
{
    if samples.len() == 0 {
        bw
    } else {
        let b = bandwidth_after(bw, max, samples.drop_last(), peaks, now);
        let l = samples.last();
        b.insert(l.interface, bounded_push(series_of(b, l.interface), max, usage_of(l, peaks, now)))
    }
}

/// Appends `x` to `v`, first dropping the oldest element when `v` holds `max` or more.
fn bounded_push_vec<T: Duplicate>(v: &mut Vec<T>, max: usize, x: T)
    ensures
        views(final(v)@) == bounded_push(views(old(v)@), max, x@),
{
    let ghost before = views(v@);
    let ghost xv = x@;
    if v.len() >= max && v.len() > 0 {
        let _ = v.remove(0);
        assert(views(v@) =~= before.drop_first());
    }
    let ghost mid = views(v@);
    v.push(x);
    assert(views(v@) =~= mid.push(xv));
}

/// The alerts one rule raises for a snapshot.
pub open spec fn rule_alerts(r: AlertConfigView, snap: SnapshotView) -> Seq<(NetworkAlertType, u64, u64)> {
    if !r.enabled {
        seq![]
    } else {
        match r.alert_type {
            NetworkAlertType::RxBandwidthHigh => {
                let rx = match r.interface { Some(n) => interface_rate(snap.interfaces, n, true), None => snap.total_rx_bps };
                if rx > r.threshold_bps { seq![(NetworkAlertType::RxBandwidthHigh, rx, r.threshold_bps)] } else { seq![] }
            },
            NetworkAlertType::TxBandwidthHigh => {
                let tx = match r.interface { Some(n) => interface_rate(snap.interfaces, n, false), None => snap.total_tx_bps };
                if tx > r.threshold_bps { seq![(NetworkAlertType::TxBandwidthHigh, tx, r.threshold_bps)] } else { seq![] }
            },
            NetworkAlertType::TotalBandwidthHigh => {
                let total = (snap.total_rx_bps + snap.total_tx_bps) as u64;
                if total > r.threshold_bps { seq![(NetworkAlertType::TotalBandwidthHigh, total, r.threshold_bps)] } else { seq![] }
            },
            NetworkAlertType::ErrorRate => error_alerts(snap.interfaces, r),
            NetworkAlertType::PacketLoss => seq![],
        }
    }
}

/// The byte rate (received when `rx`, else sent) of the first interface named
/// `name`, or zero when there is none.
pub open spec fn interface_rate(s: Seq<StatsView>, name: Seq<char>, rx: bool) -> u64
    decreases s.len(),
{
    if s.len() == 0 {
        0
    } else if s[0].interface == name {
        if rx { s[0].rx_bytes_per_sec } else { s[0].tx_bytes_per_sec }
    } else {
        interface_rate(s.drop_first(), name, rx)
    }
}

/// The error alerts of rule `r`: one for each interface of `s` that is the
/// rule's interface and has errors.
pub open spec fn error_alerts(s: Seq<StatsView>, r: AlertConfigView) -> Seq<(NetworkAlertType, u64, u64)>
    decreases s.len(),
{
    if s.len() == 0 {
        seq![]
    } else {
        let rest = error_alerts(s.drop_last(), r);
        let l = s.last();
        let total = (l.rx_errors + l.tx_errors) as u64;
        if total > 0 && r.interface == Some(l.interface) { rest.push((NetworkAlertType::ErrorRate, total, r.threshold_bps)) } else { rest }
    }
}

/// The alerts the rules `rules` raise for a snapshot, rule by rule.
pub open spec fn alerts_of(rules: Seq<AlertConfigView>, snap: SnapshotView) -> Seq<(NetworkAlertType, u64, u64)>
    decreases rules.len(),
{
    if rules.len() == 0 { seq![] } else { alerts_of(rules.drop_last(), snap) + rule_alerts(rules.last(), snap) }
}

/// Checking rules `rules` on a snapshot stays within the range of counts:
/// the total bandwidth when a total rule is enabled, and each interface's
/// errors when an error rule is enabled.
pub open spec fn alert_sums_fit(rules: Seq<AlertConfigView>, snap: SnapshotView) -> bool {
    &&& (exists|i: int| 0 <= i < rules.len() && #[trigger] rules[i].enabled && rules[i].alert_type == NetworkAlertType::TotalBandwidthHigh)
            ==> snap.total_rx_bps + snap.total_tx_bps <= u64::MAX
    &&& (exists|i: int| 0 <= i < rules.len() && #[trigger] rules[i].enabled && rules[i].alert_type == NetworkAlertType::ErrorRate)
            ==> forall|j: int| 0 <= j < snap.interfaces.len() ==> #[trigger] snap.interfaces[j].rx_errors + snap.interfaces[j].tx_errors <= u64::MAX
}

/// The entries of `s` stamped after `cutoff`.
pub open spec fn recent(s: Seq<StatsView>, cutoff: u64) -> Seq<StatsView>
    decreases s.len(),
{
    if s.len() == 0 {
        seq![]
    } else if s.last().timestamp > cutoff {
        recent(s.drop_last(), cutoff).push(s.last())
    } else {
        recent(s.drop_last(), cutoff)
    }
}

/// The sum of the byte rates (received when `rx`, else sent) of `s`.
pub open spec fn rate_sum(s: Seq<StatsView>, rx: bool) -> nat
    decreases s.len(),
{
    if s.len() == 0 { 0 } else { rate_sum(s.drop_last(), rx) + (if rx { s.last().rx_bytes_per_sec } else { s.last().tx_bytes_per_sec }) as nat }
}

/// The time `secs` seconds before `now`, in milliseconds (at least zero).
pub open spec fn seconds_before(now: u64, secs: u64) -> u64 {
    let span = secs * 1000;
    if span >= now { 0 } else { (now - span) as u64 }
}

/// The time `secs` seconds before `now`, in milliseconds (at least zero).
pub fn time_seconds_before(now: u64, secs: u64) -> (c: u64)
    ensures
        c == seconds_before(now, secs),
{
    if secs > now / 1000 {
        assert(secs * 1000 >= now) by (nonlinear_arith)
            requires secs > now / 1000;
        0
    } else {
        assert(secs * 1000 <= now) by (nonlinear_arith)
            requires secs <= now / 1000;
        now - secs * 1000
    }
}

// ---------------------------------------------------------------------------
// The monitor
// ---------------------------------------------------------------------------

/// Interface and bandwidth histories (each kept up to a bound), alert rules,
/// the last counters read, and peak rates.
pub struct NetworkMonitor {
    interface_history: Vec<NetworkInterfaceStats>,
    bandwidth_history: Store<BandwidthSeries>,
    connection_history: Vec<NetworkConnectionInfo>,
    max_history_size: usize,
    thresholds: Vec<NetworkAlertConfig>,
    last_sample: Option<u64>,
    last_stats: Store<LastCounters>,
    peak_rx: u64,
    peak_tx: u64,
}

impl NetworkMonitor {
    /// Byte rates are recorded as zero (the counters are compared with
    /// themselves), so every recorded byte rate is zero.
    #[verifier::type_invariant]
    spec fn inv(&self) -> bool {
        forall|i: int| 0 <= i < self.interface_history@.len() ==>
            (#[trigger] self.interface_history@[i]).rx_bytes_per_sec == 0 && self.interface_history@[i].tx_bytes_per_sec == 0
    }

    /// The interface statistics, oldest first.
    pub closed spec fn history(&self) -> Seq<StatsView> {
        views(self.interface_history@)
    }

    /// The bandwidth history of each interface.
    pub closed spec fn bandwidth(&self) -> Map<Seq<char>, Seq<UsageView>> {
        self.bandwidth_history.map().map_values(|b: BandwidthSeries| views(b.entries@))
    }

    /// The last counters read for each interface.
    pub closed spec fn counters(&self) -> Map<Seq<char>, (u64, u64, u64, u64)> {
        self.last_stats.map().map_values(|c: LastCounters| (c.rx_bytes, c.tx_bytes, c.rx_packets, c.tx_packets))
    }

    /// When counters were last read.
    pub closed spec fn last_time(&self) -> Option<u64> {
        self.last_sample
    }

    /// The peak received and sent rates.
    pub closed spec fn peaks(&self) -> (u64, u64) {
        (self.peak_rx, self.peak_tx)
    }

    /// The alert rules, in the order added.
    pub closed spec fn rules(&self) -> Seq<AlertConfigView> {
        views(self.thresholds@)
    }

    /// How many entries each history keeps.
    pub closed spec fn max_history(&self) -> usize {
        self.max_history_size
    }

    /// Empty histories, no rules, no counters, zero peaks.
    pub fn new(max_history_size: usize) -> (m: NetworkMonitor)
        ensures
            m.history() == Seq::<StatsView>::empty(),
            m.bandwidth() == Map::<Seq<char>, Seq<UsageView>>::empty(),
            m.counters() == Map::<Seq<char>, (u64, u64, u64, u64)>::empty(),
            m.last_time() is None,
            m.peaks() == (0u64, 0u64),
            m.rules() == Seq::<AlertConfigView>::empty(),
            m.max_history() == max_history_size,
    {
        let m = NetworkMonitor {
            interface_history: Vec::new(),
            bandwidth_history: Store::new(),
            connection_history: Vec::new(),
            max_history_size,
            thresholds: Vec::new(),
            last_sample: None,
            last_stats: Store::new(),
            peak_rx: 0,
            peak_tx: 0,
        };
        assert(m.history() =~= Seq::<StatsView>::empty());
        assert(m.bandwidth() =~= Map::<Seq<char>, Seq<UsageView>>::empty());
        assert(m.counters() =~= Map::<Seq<char>, (u64, u64, u64, u64)>::empty());
        assert(m.rules() =~= Seq::<AlertConfigView>::empty());
        m
    }

    /// An empty monitor keeping up to a thousand entries per history.
    pub fn with_default() -> (m: NetworkMonitor)
        ensures
            m.history() == Seq::<StatsView>::empty(),
            m.bandwidth() == Map::<Seq<char>, Seq<UsageView>>::empty(),
            m.last_time() is None,
            m.peaks() == (0u64, 0u64),
            m.rules() == Seq::<AlertConfigView>::empty(),
            m.max_history() == 1000,
    {
        NetworkMonitor::new(1000)
    }

    /// How many entries each history keeps.
    pub fn max_history_size(&self) -> (n: usize)
        ensures
            n == self.max_history(),
    {
        self.max_history_size
    }

    /// What the packet rates of `first`, the first interface of a collection
    /// at `now`, are computed from, when it gets rates: the packets received
    /// and sent since its last reading (saturating at zero) and the
    /// milliseconds since the last collection.
    pub fn rate_query(&self, first: &InterfaceSample, now: u64) -> (r: Option<(u64, u64, u64)>)
        ensures
            match r {
                Some((rx, tx, ms)) => gets_rates(self.last_time(), self.counters(), first.interface@, now)
                    && rx == first.rx_packets.saturating_sub(self.counters()[first.interface@].2)
                    && tx == first.tx_packets.saturating_sub(self.counters()[first.interface@].3)
                    && ms == now - self.last_time().unwrap(),
                None => !gets_rates(self.last_time(), self.counters(), first.interface@, now),
            },
    {
        let last = match self.last_sample {
            Some(l) => l,
            None => return None,
        };
        if now <= last {
            return None;
        }
        match self.last_stats.get(first.interface.as_str()) {
            Some(c) => {
                assert(self.counters().dom().contains(first.interface@));
                Some((first.rx_packets.saturating_sub(c.rx_packets), first.tx_packets.saturating_sub(c.tx_packets), now - last))
            }
            None => {
                assert(!self.counters().dom().contains(first.interface@));
                None
            }
        }
    }

    /// Records the counters `samples` read at `now`: each interface gets
    /// statistics (the first with packet rates `first_rates` when it gets
    /// rates, see `rate_query`), its counters are kept for the next
    /// collection, and its statistics and bandwidth join the bounded histories.
    pub fn collect_network_stats_at(&mut self, samples: Vec<InterfaceSample>, first_rates: (u64, u64), now: u64) -> (snap: NetworkSnapshot)
        ensures
            ({
                let sv = views(samples@);
                let rated = sv.len() > 0 && gets_rates(old(self).last_time(), old(self).counters(), sv[0].interface, now);
                let p = produced(sv, rated, first_rates, now);
                &&& snap@ == (SnapshotView { interfaces: p, total_rx_bps: 0, total_tx_bps: 0, active_connections: 0, timestamp: now })
                &&& final(self).history() == history_after(old(self).history(), old(self).max_history(), p)
                &&& final(self).counters() == counters_after(old(self).counters(), sv)
                &&& final(self).bandwidth() == bandwidth_after(old(self).bandwidth(), old(self).max_history(), sv, old(self).peaks(), now)
                &&& final(self).last_time() == if sv.len() > 0 { Some(now) } else { old(self).last_time() }
            }),
            final(self).peaks() == old(self).peaks(),
            final(self).rules() == old(self).rules(),
            final(self).max_history() == old(self).max_history(),
    {
        let ghost sv = views(samples@);
        let rated = samples.len() > 0 && self.rate_query(&samples[0], now).is_some();
        let ghost p = produced(sv, rated, first_rates, now);
        let max = self.max_history_size;
        let n = samples.len();
        let mut interfaces: Vec<NetworkInterfaceStats> = Vec::new();
        let mut total_rx: u64 = 0;
        let mut total_tx: u64 = 0;
        let mut i: usize = 0;
        while i < n
            invariant
                n == samples@.len(),
                sv == views(samples@),
                p == produced(sv, rated, first_rates, now),
                max == old(self).max_history(),
                max == self.max_history_size,
                i <= n,
                views(interfaces@) == p.take(i as int),
                total_rx == 0 && total_tx == 0,
                self.history() == history_after(old(self).history(), max, p.take(i as int)),
                self.counters() == counters_after(old(self).counters(), sv.take(i as int)),
                self.bandwidth() == bandwidth_after(old(self).bandwidth(), max, sv.take(i as int), old(self).peaks(), now),
                self.last_time() == if i > 0 { Some(now) } else { old(self).last_time() },
                self.peaks() == old(self).peaks(),
                self.rules() == old(self).rules(),
            decreases n - i,
        {
            proof {
                use_type_invariant(&*self);
                assert(sv.take(i + 1).drop_last() =~= sv.take(i as int));
                assert(sv.take(i + 1).last() == samples@[i as int]@);
                assert(p.take(i + 1).drop_last() =~= p.take(i as int));
            }
            let sample = &samples[i];
            let with_rates = i == 0 && rated;
            let current = NetworkInterfaceStats {
                interface: sample.interface.clone(),
                rx_bytes_per_sec: 0,
                tx_bytes_per_sec: 0,
                rx_packets_per_sec: if with_rates { first_rates.0 } else { 0 },
                tx_packets_per_sec: if with_rates { first_rates.1 } else { 0 },
                rx_errors: sample.rx_errors,
                tx_errors: sample.tx_errors,
                rx_dropped: sample.rx_dropped,
                tx_dropped: sample.tx_dropped,
                timestamp: now,
            };
            assert(current@ == p[i as int]);
            assert(p.take(i + 1).last() == p[i as int]);
            // keep the counters for the next collection
            let ghost c_before = self.counters();
            let mut counters: Store<LastCounters> = Store::new();
            std::mem::swap(&mut counters, &mut self.last_stats);
            counters.upsert(LastCounters {
                interface: sample.interface.clone(),
                rx_bytes: sample.rx_bytes,
                tx_bytes: sample.tx_bytes,
                rx_packets: sample.rx_packets,
                tx_packets: sample.tx_packets,
            });
            self.last_stats = counters;
            assert(self.counters() =~= c_before.insert(sample.interface@,
                (sample.rx_bytes, sample.tx_bytes, sample.rx_packets, sample.tx_packets)));
            self.last_sample = Some(now);
            total_rx = total_rx + current.rx_bytes_per_sec;
            total_tx = total_tx + current.tx_bytes_per_sec;
            // the interface history
            let ghost h_before = self.history();
            let mut hist: Vec<NetworkInterfaceStats> = Vec::new();
            std::mem::swap(&mut hist, &mut self.interface_history);
            bounded_push_vec(&mut hist, max, current.dup());
            proof {
                assert forall|k: int| 0 <= k < hist@.len() implies
                    (#[trigger] hist@[k]).rx_bytes_per_sec == 0 && hist@[k].tx_bytes_per_sec == 0 by {
                    assert(views(hist@)[k] == hist@[k]@);
                    let b = bounded_push(h_before, max, current@);
                    if k < b.len() - 1 {
                        let t = if h_before.len() >= max && h_before.len() > 0 { h_before.drop_first() } else { h_before };
                        assert(b[k] == t[k]);
                    }
                }
            }
            self.interface_history = hist;
            // the bandwidth history
            let peak_rx = if current.rx_bytes_per_sec > self.peak_rx { current.rx_bytes_per_sec } else { self.peak_rx };
            let peak_tx = if current.tx_bytes_per_sec > self.peak_tx { current.tx_bytes_per_sec } else { self.peak_tx };
            self.peak_rx = peak_rx;
            self.peak_tx = peak_tx;
            let usage = BandwidthUsage {
                interface: sample.interface.clone(),
                current_rx_bps: current.rx_bytes_per_sec,
                current_tx_bps: current.tx_bytes_per_sec,
                avg_rx_bps: 0,
                avg_tx_bps: 0,
                peak_rx_bps: peak_rx,
                peak_tx_bps: peak_tx,
                total_rx_bytes: sample.rx_bytes,
                total_tx_bytes: sample.tx_bytes,
                utilization_percent_bits: 0,
                timestamp: now,
            };
            let ghost b_before = self.bandwidth();
            let mut entries: Vec<BandwidthUsage> = match self.bandwidth_history.get(sample.interface.as_str()) {
                Some(series) => crate::dup::dup_vec(&series.entries),
                None => Vec::new(),
            };
            assert(views(entries@) == series_of(b_before, sample.interface@));
            bounded_push_vec(&mut entries, max, usage);
            let ghost ev = views(entries@);
            let mut bw: Store<BandwidthSeries> = Store::new();
            std::mem::swap(&mut bw, &mut self.bandwidth_history);
            bw.upsert(BandwidthSeries { interface: sample.interface.clone(), entries });
            self.bandwidth_history = bw;
            assert(self.bandwidth() =~= b_before.insert(sample.interface@, ev));
            interfaces.push(current);
            assert(views(interfaces@) =~= p.take(i + 1));
            i = i + 1;
        }
        proof {
            assert(sv.take(n as int) =~= sv);
            assert(p.take(n as int) =~= p);
        }
        NetworkSnapshot { interfaces, total_rx_bps: total_rx, total_tx_bps: total_tx, active_connections: 0, timestamp: now }
    }

    /// A copy of the newest statistics of `interface`, if any.
    pub fn get_interface_stats(&self, interface: &str) -> (r: Option<NetworkInterfaceStats>)
        ensures
            match r {
                Some(st) => exists|i: int| 0 <= i < self.history().len() && #[trigger] self.history()[i].interface == interface@
                    && st@ == self.history()[i]
                    && forall|j: int| i < j < self.history().len() ==> #[trigger] self.history()[j].interface != interface@,
                None => forall|i: int| 0 <= i < self.history().len() ==> #[trigger] self.history()[i].interface != interface@,
            },
    {
        let n = self.interface_history.len();
        let mut k: usize = n;
        while k > 0
            invariant
                n == self.interface_history@.len(),
                k <= n,
                forall|j: int| k <= j < n ==> #[trigger] self.history()[j].interface != interface@,
            decreases k,
        {
            let i = k - 1;
            if str_eq(self.interface_history[i].interface.as_str(), interface) {
                assert(self.history()[i as int].interface == interface@);
                return Some(self.interface_history[i].dup());
            }
            assert(self.history()[i as int] == self.interface_history@[i as int]@);
            k = i;
        }
        None
    }

    /// A copy of the newest bandwidth record of `interface`, if any.
    pub fn get_bandwidth_usage(&self, interface: &str) -> (r: Option<BandwidthUsage>)
        ensures
            match r {
                Some(u) => series_of(self.bandwidth(), interface@).len() > 0 && u@ == series_of(self.bandwidth(), interface@).last(),
                None => series_of(self.bandwidth(), interface@).len() == 0,
            },
    {
        match self.bandwidth_history.get(interface) {
            Some(series) => {
                let n = series.entries.len();
                if n == 0 {
                    None
                } else {
                    Some(series.entries[n - 1].dup())
                }
            }
            None => None,
        }
    }

    /// Copies of the newest `limit` bandwidth records of `interface`, newest first.
    pub fn get_bandwidth_history(&self, interface: &str, limit: usize) -> (r: Vec<BandwidthUsage>)
        ensures
            views(r@) == newest(series_of(self.bandwidth(), interface@), limit as nat),
    {
        match self.bandwidth_history.get(interface) {
            Some(series) => crate::dup::newest_dup(&series.entries, limit),
            None => {
                let r: Vec<BandwidthUsage> = Vec::new();
                assert(views(r@) =~= newest(series_of(self.bandwidth(), interface@), limit as nat));
                r
            }
        }
    }

    /// The sums of the received and sent byte rates of the statistics stamped
    /// after `duration_secs` seconds before `now`.
    pub fn get_total_bandwidth_at(&self, duration_secs: u64, now: u64) -> (r: (u64, u64))
        ensures
            r.0 == rate_sum(recent(self.history(), seconds_before(now, duration_secs)), true),
            r.1 == rate_sum(recent(self.history(), seconds_before(now, duration_secs)), false),
    {
        proof { use_type_invariant(self); }
        let cutoff = if duration_secs > now / 1000 {
            assert(duration_secs * 1000 >= now) by (nonlinear_arith)
                requires duration_secs > now / 1000;
            0
        } else {
            assert(duration_secs * 1000 <= now) by (nonlinear_arith)
                requires duration_secs <= now / 1000;
            now - duration_secs * 1000
        };
        let ghost h = self.history();
        let n = self.interface_history.len();
        let mut rx: u64 = 0;
        let mut tx: u64 = 0;
        let mut i: usize = 0;
        while i < n
            invariant
                n == self.interface_history@.len(),
                h == self.history(),
                forall|k: int| 0 <= k < n ==> (#[trigger] h[k]).rx_bytes_per_sec == 0 && h[k].tx_bytes_per_sec == 0,
                i <= n,
                rx == rate_sum(recent(h.take(i as int), cutoff), true),
                tx == rate_sum(recent(h.take(i as int), cutoff), false),
                rx == 0 && tx == 0,
            decreases n - i,
        {
            proof {
                assert(h.take(i + 1).drop_last() =~= h.take(i as int));
                assert(h.take(i + 1).last() == h[i as int]);
                assert(h[i as int] == self.interface_history@[i as int]@);
            }
            let st = &self.interface_history[i];
            if st.timestamp > cutoff {
                rx = rx + st.rx_bytes_per_sec;
                tx = tx + st.tx_bytes_per_sec;
                proof {
                    let r0 = recent(h.take(i as int), cutoff);
                    assert(recent(h.take(i + 1), cutoff) == r0.push(h[i as int]));
                    assert(r0.push(h[i as int]).drop_last() =~= r0);
                }
            }
            i = i + 1;
        }
        proof { assert(h.take(n as int) =~= h); }
        (rx, tx)
    }

    /// The peak received and sent rates.
    pub fn get_peak_bandwidth(&self) -> (r: (u64, u64))
        ensures
            r == self.peaks(),
    {
        (self.peak_rx, self.peak_tx)
    }

    /// Sets both peaks back to zero.
    pub fn reset_peak_bandwidth(&mut self)
        ensures
            final(self).peaks() == (0u64, 0u64),
            final(self).history() == old(self).history(),
            final(self).bandwidth() == old(self).bandwidth(),
            final(self).counters() == old(self).counters(),
            final(self).last_time() == old(self).last_time(),
            final(self).rules() == old(self).rules(),
    {
        proof { use_type_invariant(&*self); }
        self.peak_rx = 0;
        self.peak_tx = 0;
    }

    /// Appends an alert rule.
    pub fn add_alert_config(&mut self, config: NetworkAlertConfig)
        ensures
            final(self).rules() == old(self).rules().push(config@),
            final(self).history() == old(self).history(),
            final(self).peaks() == old(self).peaks(),
    {
        proof { use_type_invariant(&*self); }
        let ghost before = self.rules();
        let ghost cv = config@;
        let mut rules: Vec<NetworkAlertConfig> = Vec::new();
        std::mem::swap(&mut rules, &mut self.thresholds);
        rules.push(config);
        self.thresholds = rules;
        assert(self.rules() =~= before.push(cv));
    }

    /// How many alert rules there are.
    pub fn alert_config_count(&self) -> (n: usize)
        ensures
            n == self.rules().len(),
    {
        self.thresholds.len()
    }

    /// The alerts the enabled rules raise for `snapshot`, rule by rule: the
    /// received or sent rate (of the rule's interface, or in total) above the
    /// limit, the total of both above the limit, or errors on the rule's
    /// interface. Each alert carries the measured value and the limit.
    pub fn check_alerts(&self, snapshot: &NetworkSnapshot) -> (r: Vec<(NetworkAlertType, u64, u64)>)
        requires
            alert_sums_fit(self.rules(), snapshot@),
        ensures
            r@ == alerts_of(self.rules(), snapshot@),
    {
        let ghost rules = self.rules();
        let ghost snap = snapshot@;
        let n = self.thresholds.len();
        let mut r: Vec<(NetworkAlertType, u64, u64)> = Vec::new();
        let mut i: usize = 0;
        while i < n
            invariant
                n == self.thresholds@.len(),
                rules == self.rules(),
                snap == snapshot@,
                alert_sums_fit(rules, snap),
                i <= n,
                r@ == alerts_of(rules.take(i as int), snap),
            decreases n - i,
        {
            proof {
                assert(rules.take(i + 1).drop_last() =~= rules.take(i as int));
                assert(rules.take(i + 1).last() == rules[i as int]);
                assert(rules[i as int] == self.thresholds@[i as int]@);
            }
            let c = &self.thresholds[i];
            let ghost before = r@;
            if c.enabled {
                match c.alert_type {
                    NetworkAlertType::RxBandwidthHigh => {
                        let rx = match &c.interface {
                            Some(name) => first_rate(&snapshot.interfaces, name.as_str(), true),
                            None => snapshot.total_rx_bps,
                        };
                        if rx > c.threshold_bps {
                            r.push((NetworkAlertType::RxBandwidthHigh, rx, c.threshold_bps));
                        }
                    }
                    NetworkAlertType::TxBandwidthHigh => {
                        let tx = match &c.interface {
                            Some(name) => first_rate(&snapshot.interfaces, name.as_str(), false),
                            None => snapshot.total_tx_bps,
                        };
                        if tx > c.threshold_bps {
                            r.push((NetworkAlertType::TxBandwidthHigh, tx, c.threshold_bps));
                        }
                    }
                    NetworkAlertType::TotalBandwidthHigh => {
                        assert(rules[i as int].enabled && rules[i as int].alert_type == NetworkAlertType::TotalBandwidthHigh);
                        let total = snapshot.total_rx_bps + snapshot.total_tx_bps;
                        if total > c.threshold_bps {
                            r.push((NetworkAlertType::TotalBandwidthHigh, total, c.threshold_bps));
                        }
                    }
                    NetworkAlertType::ErrorRate => {
                        assert(rules[i as int].enabled && rules[i as int].alert_type == NetworkAlertType::ErrorRate);
                        assert(forall|j: int| 0 <= j < snap.interfaces.len() ==> #[trigger] snap.interfaces[j].rx_errors + snap.interfaces[j].tx_errors <= u64::MAX);
                        let m = snapshot.interfaces.len();
                        let mut k: usize = 0;
                        while k < m
                            invariant
                                m == snapshot.interfaces@.len(),
                                snap == snapshot@,
                                forall|j: int| 0 <= j < snap.interfaces.len() ==> #[trigger] snap.interfaces[j].rx_errors + snap.interfaces[j].tx_errors <= u64::MAX,
                                k <= m,
                                i < rules.len(),
                                r@ == before + error_alerts(snap.interfaces.take(k as int), rules[i as int]),
                                rules[i as int] == c@,
                            decreases m - k,
                        {
                            proof {
                                assert(snap.interfaces.take(k + 1).drop_last() =~= snap.interfaces.take(k as int));
                                assert(snap.interfaces.take(k + 1).last() == snap.interfaces[k as int]);
                                assert(snap.interfaces[k as int] == snapshot.interfaces@[k as int]@);
                                assert(snap.interfaces[k as int].rx_errors + snap.interfaces[k as int].tx_errors <= u64::MAX);
                            }
                            let iface = &snapshot.interfaces[k];
                            let total_errors = iface.rx_errors + iface.tx_errors;
                            let same = match &c.interface {
                                Some(name) => str_eq(name.as_str(), iface.interface.as_str()),
                                None => false,
                            };
                            if total_errors > 0 && same {
                                r.push((NetworkAlertType::ErrorRate, total_errors, c.threshold_bps));
                            }
                            k = k + 1;
                            assert(r@ =~= before + error_alerts(snap.interfaces.take(k as int), rules[i as int]));
                        }
                        proof { assert(snap.interfaces.take(m as int) =~= snap.interfaces); }
                    }
                    NetworkAlertType::PacketLoss => {}
                }
            }
            assert(r@ =~= before + rule_alerts(rules[i as int], snap));
            i = i + 1;
        }
        proof { assert(rules.take(n as int) =~= rules); }
        r
    }

    /// The received and sent rates of the newest statistics (zero when there
    /// are none) and the peak rates.
    pub fn summary_rates(&self) -> (r: (u64, u64, u64, u64))
        ensures
            r == (if self.history().len() == 0 { (0u64, 0u64, self.peaks().0, self.peaks().1) } else {
                (self.history().last().rx_bytes_per_sec, self.history().last().tx_bytes_per_sec, self.peaks().0, self.peaks().1)
            }),
    {
        let n = self.interface_history.len();
        if n == 0 {
            (0, 0, self.peak_rx, self.peak_tx)
        } else {
            (self.interface_history[n - 1].rx_bytes_per_sec, self.interface_history[n - 1].tx_bytes_per_sec, self.peak_rx, self.peak_tx)
        }
    }
}

/// The byte rate (received when `rx`, else sent) of the first interface named
/// `name`, or zero when there is none.
fn first_rate(s: &Vec<NetworkInterfaceStats>, name: &str, rx: bool) -> (r: u64)
    ensures
        r == interface_rate(views(s@), name@, rx),
{
    let ghost v = views(s@);
    let n = s.len();
    let mut i: usize = 0;
    assert(v.skip(0) =~= v);
    while i < n
        invariant
            n == s@.len(),
            v == views(s@),
            i <= n,
            interface_rate(v, name@, rx) == interface_rate(v.skip(i as int), name@, rx),
        decreases n - i,
    {
        let ghost rest = v.skip(i as int);
        assert(rest[0] == s@[i as int]@);
        if str_eq(s[i].interface.as_str(), name) {
            return if rx { s[i].rx_bytes_per_sec } else { s[i].tx_bytes_per_sec };
        }
        assert(rest.drop_first() =~= v.skip(i + 1));
        i = i + 1;
    }
    assert(v.skip(n as int) =~= Seq::<StatsView>::empty());
    0
}

// ---------------------------------------------------------------------------
// Laws
// ---------------------------------------------------------------------------

/// A collection never takes the interface history past its bound (when the
/// bound is at least one).
pub proof fn law_history_stays_bounded(h: Seq<StatsView>, max: usize, s: Seq<StatsView>)
    requires
        max > 0,
        h.len() <= max,
    ensures
        history_after(h, max, s).len() <= max,
    decreases s.len(),
{
    if s.len() > 0 {
        law_history_stays_bounded(h, max, s.drop_last());
    }
}

/// Disabled rules raise no alerts.
pub proof fn law_disabled_rules_are_silent(rules: Seq<AlertConfigView>, snap: SnapshotView)
    requires
        forall|i: int| 0 <= i < rules.len() ==> !(#[trigger] rules[i]).enabled,
    ensures
        alerts_of(rules, snap) == Seq::<(NetworkAlertType, u64, u64)>::empty(),
    decreases rules.len(),
{
    if rules.len() > 0 {
        assert(!rules[rules.len() - 1].enabled);
        law_disabled_rules_are_silent(rules.drop_last(), snap);
        assert(alerts_of(rules, snap) =~= Seq::<(NetworkAlertType, u64, u64)>::empty());
    }
}

/// In a collection only the first interface can have packet rates; every
/// interface has zero byte rates.
pub proof fn law_only_first_interface_has_packet_rates(samples: Seq<SampleView>, rated: bool, rates: (u64, u64), now: u64, i: int)
    requires
        0 < i < samples.len(),
    ensures
        produced(samples, rated, rates, now)[i].rx_packets_per_sec == 0,
        produced(samples, rated, rates, now)[i].tx_packets_per_sec == 0,
        produced(samples, rated, rates, now)[i].rx_bytes_per_sec == 0,
{
}

} // verus!
