//! Shared monitoring vocabulary: alert levels, threshold operators, metric
//! kinds and alerts. Measured values are carried as the bit patterns of IEEE
//! doubles (`f64::to_bits`); the logic here never computes with them.
use vstd::prelude::*;
use crate::text::{owned, opt_view};
use crate::dup::Duplicate;
use crate::keyed::Keyed;

verus! {

/// How urgent an alert is.
#[derive(Clone, Copy, PartialEq, Eq, Structural, Debug)]
pub enum AlertLevel {
    Info,
    Warning,
    Critical,
}

/// The lower-case name of an alert level.
pub open spec fn level_name(l: AlertLevel) -> Seq<char> {
    match l {
        AlertLevel::Info => "info"@,
        AlertLevel::Warning => "warning"@,
        AlertLevel::Critical => "critical"@,
    }
}

impl AlertLevel {
    /// The lower-case name of the level.
    pub fn to_string(&self) -> (s: String)
        ensures
            s@ == level_name(*self),
    {
        match self {
            AlertLevel::Info => owned("info"),
            AlertLevel::Warning => owned("warning"),
            AlertLevel::Critical => owned("critical"),
        }
    }
}

/// How a measured value is compared with a threshold.
#[derive(Clone, Copy, PartialEq, Eq, Structural, Debug)]
pub enum ThresholdOperator {
    GreaterThan,
    LessThan,
    GreaterThanOrEqual,
    LessThanOrEqual,
    Equal,
}

/// What is measured.
#[derive(Clone, Copy, PartialEq, Eq, Structural, Debug, Hash)]
pub enum MetricType {
    CpuUsage,
    MemoryUsage,
    MemoryPercent,
    DiskRead,
    DiskWrite,
    NetworkRx,
    NetworkTx,
    ThreadCount,
    GcPause,
    GcCount,
    HeapUsed,
    HeapMax,
    Tps,
    PlayerCount,
}

/// The snake-case name of a metric.
pub open spec fn metric_name(m: MetricType) -> Seq<char> {
    match m {
        MetricType::CpuUsage => "cpu_usage"@,
        MetricType::MemoryUsage => "memory_usage"@,
        MetricType::MemoryPercent => "memory_percent"@,
        MetricType::DiskRead => "disk_read"@,
        MetricType::DiskWrite => "disk_write"@,
        MetricType::NetworkRx => "network_rx"@,
        MetricType::NetworkTx => "network_tx"@,
        MetricType::ThreadCount => "thread_count"@,
        MetricType::GcPause => "gc_pause"@,
        MetricType::GcCount => "gc_count"@,
        MetricType::HeapUsed => "heap_used"@,
        MetricType::HeapMax => "heap_max"@,
        MetricType::Tps => "tps"@,
        MetricType::PlayerCount => "player_count"@,
    }
}

/// The length and the characters at positions 0, 3 and 8 (a space where
/// the name is shorter; position 1 for the three-letter name) of each
/// metric's name: enough to tell the names apart.
spec fn name_marks(m: MetricType) -> (nat, char, char, char) {
    match m {
        MetricType::CpuUsage => (9nat, 'c', '_', 'e'),
        MetricType::MemoryUsage => (12nat, 'm', 'o', 's'),
        MetricType::MemoryPercent => (14nat, 'm', 'o', 'e'),
        MetricType::DiskRead => (9nat, 'd', 'k', 'd'),
        MetricType::DiskWrite => (10nat, 'd', 'k', 't'),
        MetricType::NetworkRx => (10nat, 'n', 'w', 'r'),
        MetricType::NetworkTx => (10nat, 'n', 'w', 't'),
        MetricType::ThreadCount => (12nat, 't', 'e', 'o'),
        MetricType::GcPause => (8nat, 'g', 'p', ' '),
        MetricType::GcCount => (8nat, 'g', 'c', ' '),
        MetricType::HeapUsed => (9nat, 'h', 'p', 'd'),
        MetricType::HeapMax => (8nat, 'h', 'p', ' '),
        MetricType::Tps => (3nat, 't', 'p', ' '),
        MetricType::PlayerCount => (12nat, 'p', 'y', 'o'),
    }
}

proof fn lemma_name_marks(m: MetricType)
    ensures
        name_marks(m) == (metric_name(m).len(), metric_name(m)[0],
            if metric_name(m).len() < 4 { metric_name(m)[1] } else { metric_name(m)[3] },
            if metric_name(m).len() > 8 { metric_name(m)[8] } else { ' ' }),
{
    reveal_strlit("cpu_usage");
    reveal_strlit("memory_usage");
    reveal_strlit("memory_percent");
    reveal_strlit("disk_read");
    reveal_strlit("disk_write");
    reveal_strlit("network_rx");
    reveal_strlit("network_tx");
    reveal_strlit("thread_count");
    reveal_strlit("gc_pause");
    reveal_strlit("gc_count");
    reveal_strlit("heap_used");
    reveal_strlit("heap_max");
    reveal_strlit("tps");
    reveal_strlit("player_count");
}

/// Distinct metrics have distinct names, so a name tells its metric.
pub proof fn law_metric_names_distinct(a: MetricType, b: MetricType)
    ensures
        metric_name(a) == metric_name(b) ==> a == b,
{
    lemma_name_marks(a);
    lemma_name_marks(b);
}

impl MetricType {
    /// The snake-case name of the metric.
    pub fn as_str(&self) -> (s: &'static str)
        ensures
            s@ == metric_name(*self),
    {
        match self {
            MetricType::CpuUsage => "cpu_usage",
            MetricType::MemoryUsage => "memory_usage",
            MetricType::MemoryPercent => "memory_percent",
            MetricType::DiskRead => "disk_read",
            MetricType::DiskWrite => "disk_write",
            MetricType::NetworkRx => "network_rx",
            MetricType::NetworkTx => "network_tx",
            MetricType::ThreadCount => "thread_count",
            MetricType::GcPause => "gc_pause",
            MetricType::GcCount => "gc_count",
            MetricType::HeapUsed => "heap_used",
            MetricType::HeapMax => "heap_max",
            MetricType::Tps => "tps",
            MetricType::PlayerCount => "player_count",
        }
    }
}

/// The bit pattern of a double without its sign bit.
pub open spec fn bits_magnitude(b: u64) -> int {
    (b % 0x8000_0000_0000_0000) as int
}

/// The double with bit pattern `b` is NaN (all exponent bits set, a nonzero fraction).
pub open spec fn bits_is_nan(b: u64) -> bool {
    bits_magnitude(b) > 0x7ff0_0000_0000_0000
}

/// An integer that orders the doubles that are not NaN as the number line does:
/// the magnitude's bit pattern, negated for negative doubles (so both zeros are 0).
pub open spec fn bits_rank(b: u64) -> int {
    if b >= 0x8000_0000_0000_0000 { -bits_magnitude(b) } else { bits_magnitude(b) }
}

/// `a < b` for the doubles with bit patterns `a` and `b` (false when either is NaN).
pub open spec fn double_lt(a: u64, b: u64) -> bool {
    !bits_is_nan(a) && !bits_is_nan(b) && bits_rank(a) < bits_rank(b)
}

/// `a <= b` for the doubles with bit patterns `a` and `b` (false when either is NaN).
pub open spec fn double_le(a: u64, b: u64) -> bool {
    !bits_is_nan(a) && !bits_is_nan(b) && bits_rank(a) <= bits_rank(b)
}

fn rank_of(b: u64) -> (r: i128)
    ensures
        r == bits_rank(b),
{
    let m = b % 0x8000_0000_0000_0000;
    if b >= 0x8000_0000_0000_0000 { -(m as i128) } else { m as i128 }
}

/// Whether the double with bit pattern `a` is less than the one with pattern `b`.
pub fn double_less(a: u64, b: u64) -> (r: bool)
    ensures
        r == double_lt(a, b),
{
    let nan = 0x7ff0_0000_0000_0000u64;
    if a % 0x8000_0000_0000_0000 > nan || b % 0x8000_0000_0000_0000 > nan {
        return false;
    }
    rank_of(a) < rank_of(b)
}

/// Whether the double with bit pattern `a` is at most the one with pattern `b`.
pub fn double_less_eq(a: u64, b: u64) -> (r: bool)
    ensures
        r == double_le(a, b),
{
    let nan = 0x7ff0_0000_0000_0000u64;
    if a % 0x8000_0000_0000_0000 > nan || b % 0x8000_0000_0000_0000 > nan {
        return false;
    }
    rank_of(a) <= rank_of(b)
}

/// A raised alert; `value_bits` and `threshold_bits` are the measured value and
/// the threshold as IEEE double bit patterns; times are milliseconds.
pub struct Alert {
    pub id: String,
    pub level: AlertLevel,
    pub metric_type: String,
    pub message: String,
    pub value_bits: u64,
    pub threshold_bits: u64,
    pub timestamp: u64,
    pub acknowledged: bool,
    pub acknowledged_by: Option<String>,
    pub acknowledged_at: Option<u64>,
}

impl Alert {
    /// A new unacknowledged alert raised now.
    pub fn new(id: String, level: AlertLevel, metric_type: String, message: String, value_bits: u64, threshold_bits: u64) -> (a: Alert)
        ensures
            a.id == id && a.level == level && a.metric_type == metric_type && a.message == message,
            a.value_bits == value_bits && a.threshold_bits == threshold_bits,
            !a.acknowledged && a.acknowledged_by is None && a.acknowledged_at is None,
    {
        let now = crate::clock::now_millis_unsigned();
        Alert { id, level, metric_type, message, value_bits, threshold_bits, timestamp: now, acknowledged: false, acknowledged_by: None, acknowledged_at: None }
    }

    /// A field-by-field copy.
    pub fn duplicate(&self) -> (a: Alert)
        ensures
            a.id@ == self.id@ && a.level == self.level && a.metric_type@ == self.metric_type@ && a.message@ == self.message@,
            a.value_bits == self.value_bits && a.threshold_bits == self.threshold_bits && a.timestamp == self.timestamp,
            a.acknowledged == self.acknowledged && crate::text::opt_view(a.acknowledged_by) == crate::text::opt_view(self.acknowledged_by),
            a.acknowledged_at == self.acknowledged_at,
    {
        Alert {
            id: self.id.clone(),
            level: self.level,
            metric_type: self.metric_type.clone(),
            message: self.message.clone(),
            value_bits: self.value_bits,
            threshold_bits: self.threshold_bits,
            timestamp: self.timestamp,
            acknowledged: self.acknowledged,
            acknowledged_by: crate::text::copy_opt_string(&self.acknowledged_by),
            acknowledged_at: self.acknowledged_at,
        }
    }
}

/// The plain content of an alert.
pub struct AlertView {
    pub id: Seq<char>,
    pub level: AlertLevel,
    pub metric_type: Seq<char>,
    pub message: Seq<char>,
    pub value_bits: u64,
    pub threshold_bits: u64,
    pub timestamp: u64,
    pub acknowledged: bool,
    pub acknowledged_by: Option<Seq<char>>,
    pub acknowledged_at: Option<u64>,
}

impl View for Alert {
    type V = AlertView;

    open spec fn view(&self) -> AlertView {
        AlertView {
            id: self.id@,
            level: self.level,
            metric_type: self.metric_type@,
            message: self.message@,
            value_bits: self.value_bits,
            threshold_bits: self.threshold_bits,
            timestamp: self.timestamp,
            acknowledged: self.acknowledged,
            acknowledged_by: opt_view(self.acknowledged_by),
            acknowledged_at: self.acknowledged_at,
        }
    }
}

impl Duplicate for Alert {
    fn dup(&self) -> (r: Alert) {
        self.duplicate()
    }
}

/// A limit on one metric: when the measured value stands in relation
/// `operator` to the threshold (a double's bit pattern), an alert of the given
/// level is raised, at most once per cooldown. Times are milliseconds.
pub struct AlertThreshold {
    pub id: String,
    pub name: String,
    pub metric_type: MetricType,
    pub operator: ThresholdOperator,
    pub threshold_value_bits: u64,
    pub alert_level: AlertLevel,
    pub enabled: bool,
    pub cooldown_seconds: u64,
    pub created_at: u64,
}

/// The plain content of a threshold.
pub struct ThresholdView {
    pub id: Seq<char>,
    pub name: Seq<char>,
    pub metric_type: MetricType,
    pub operator: ThresholdOperator,
    pub threshold_value_bits: u64,
    pub alert_level: AlertLevel,
    pub enabled: bool,
    pub cooldown_seconds: u64,
    pub created_at: u64,
}

impl View for AlertThreshold {
    type V = ThresholdView;

    open spec fn view(&self) -> ThresholdView {
        ThresholdView {
            id: self.id@,
            name: self.name@,
            metric_type: self.metric_type,
            operator: self.operator,
            threshold_value_bits: self.threshold_value_bits,
            alert_level: self.alert_level,
            enabled: self.enabled,
            cooldown_seconds: self.cooldown_seconds,
            created_at: self.created_at,
        }
    }
}

impl Duplicate for AlertThreshold {
    fn dup(&self) -> (r: AlertThreshold) {
        AlertThreshold {
            id: self.id.clone(),
            name: self.name.clone(),
            metric_type: self.metric_type,
            operator: self.operator,
            threshold_value_bits: self.threshold_value_bits,
            alert_level: self.alert_level,
            enabled: self.enabled,
            cooldown_seconds: self.cooldown_seconds,
            created_at: self.created_at,
        }
    }
}

impl Keyed for AlertThreshold {
    open spec fn key_view(&self) -> Seq<char> {
        self.id@
    }

    fn key_str(&self) -> (r: &str) {
        self.id.as_str()
    }
}

/// One garbage collection: its kind, its pause (a double's bit pattern, in
/// milliseconds), the heap before and after, and when it happened.
pub struct GcMetrics {
    pub gc_type: String,
    pub pause_ms_bits: u64,
    pub before_heap: u64,
    pub after_heap: u64,
    pub timestamp: u64,
}

/// The plain content of a garbage collection record.
pub struct GcView {
    pub gc_type: Seq<char>,
    pub pause_ms_bits: u64,
    pub before_heap: u64,
    pub after_heap: u64,
    pub timestamp: u64,
}

impl View for GcMetrics {
    type V = GcView;

    open spec fn view(&self) -> GcView {
        GcView {
            gc_type: self.gc_type@,
            pause_ms_bits: self.pause_ms_bits,
            before_heap: self.before_heap,
            after_heap: self.after_heap,
            timestamp: self.timestamp,
        }
    }
}

impl Duplicate for GcMetrics {
    fn dup(&self) -> (r: GcMetrics) {
        GcMetrics {
            gc_type: self.gc_type.clone(),
            pause_ms_bits: self.pause_ms_bits,
            before_heap: self.before_heap,
            after_heap: self.after_heap,
            timestamp: self.timestamp,
        }
    }
}

} // verus!
