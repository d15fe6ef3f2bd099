//! Metric history: snapshots of several metrics at once and per-metric series
//! of data points, each kept up to a bound, with range queries, retention
//! settings, and the grouping of points into fixed time buckets. Values are the
//! bit patterns of IEEE doubles; statistics over them (sums, averages,
//! percentiles) are computed by the caller. Times are milliseconds since the epoch.
use vstd::prelude::*;
use crate::clock::now_millis_unsigned;
use crate::monitor::types::MetricType;
use crate::monitor::deadlock::bounded_push;
use crate::monitor::network::{seconds_before, time_seconds_before};
use crate::text::copy_vec;
use crate::monitor::silence::copy_config;
use crate::dup::{Duplicate, views, dup_vec};

verus! {

/// How the values of a window are summarised.
#[derive(Clone, Copy, PartialEq, Eq, Structural, Debug)]
pub enum AggregationType {
    Min,
    Max,
    Avg,
    Sum,
    Count,
    P50,
    P95,
    P99,
}

/// The formats metrics can be written out in.
#[derive(Clone, Copy, PartialEq, Eq, Structural, Debug)]
pub enum ExportFormat {
    Json,
    Csv,
    Prometheus,
}

/// Several metrics measured at one time (each metric at most once).
pub struct PerformanceSnapshot {
    pub timestamp: u64,
    pub metrics: Vec<(MetricType, u64)>,
}

/// The plain content of a snapshot.
pub struct SnapView {
    pub timestamp: u64,
    pub metrics: Seq<(MetricType, u64)>,
}

impl View for PerformanceSnapshot {
    type V = SnapView;

    open spec fn view(&self) -> SnapView {
        SnapView { timestamp: self.timestamp, metrics: self.metrics@ }
    }
}

impl Duplicate for PerformanceSnapshot {
    fn dup(&self) -> (r: PerformanceSnapshot) {
        PerformanceSnapshot { timestamp: self.timestamp, metrics: copy_vec(&self.metrics) }
    }
}

/// `ms` with metric `m` set to `v`: the entry for `m` replaced in place, or
/// appended when there is none.
pub open spec fn set_metric(ms: Seq<(MetricType, u64)>, m: MetricType, v: u64) -> Seq<(MetricType, u64)> {
    if exists|i: int| 0 <= i < ms.len() && #[trigger] ms[i].0 == m {
        ms.update(choose|i: int| 0 <= i < ms.len() && #[trigger] ms[i].0 == m, (m, v))
    } else {
        ms.push((m, v))
    }
}

impl PerformanceSnapshot {
    /// An empty snapshot taken now.
    pub fn new() -> (s: PerformanceSnapshot)
        ensures
            s@.metrics == Seq::<(MetricType, u64)>::empty(),
    {
        PerformanceSnapshot { timestamp: now_millis_unsigned(), metrics: Vec::new() }
    }

    /// The snapshot with metric `metric_type` set to `value_bits`.
    pub fn with_metric(self, metric_type: MetricType, value_bits: u64) -> (s: PerformanceSnapshot)
        requires
            forall|i: int, j: int| 0 <= i < self.metrics@.len() && 0 <= j < self.metrics@.len() && i != j
                ==> #[trigger] self.metrics@[i].0 != #[trigger] self.metrics@[j].0,
        ensures
            s@.timestamp == self@.timestamp,
            s@.metrics == set_metric(self@.metrics, metric_type, value_bits),
    {
        let mut s = self;
        let n = s.metrics.len();
        let mut i: usize = 0;
        while i < n
            invariant
                n == s.metrics@.len(),
                s == self,
                i <= n,
                forall|a: int, b: int| 0 <= a < self.metrics@.len() && 0 <= b < self.metrics@.len() && a != b
                    ==> #[trigger] self.metrics@[a].0 != #[trigger] self.metrics@[b].0,
                forall|k: int| 0 <= k < i ==> #[trigger] s.metrics@[k].0 != metric_type,
            decreases n - i,
        {
            if s.metrics[i].0 == metric_type {
                proof {
                    assert(self.metrics@[i as int].0 == metric_type);
                    let j = choose|j: int| 0 <= j < self.metrics@.len() && #[trigger] self.metrics@[j].0 == metric_type;
                    if j != i {
                        assert(self.metrics@[j].0 != self.metrics@[i as int].0);
                    }
                }
                s.metrics.set(i, (metric_type, value_bits));
                return s;
            }
            i = i + 1;
        }
        s.metrics.push((metric_type, value_bits));
        s
    }
}

/// One measured value of a metric with its tags (name and value pairs).
pub struct MetricDataPoint {
    pub timestamp: u64,
    pub metric_type: MetricType,
    pub value_bits: u64,
    pub tags: Vec<(String, String)>,
}

/// The plain content of a data point.
pub struct PointView {
    pub timestamp: u64,
    pub metric_type: MetricType,
    pub value_bits: u64,
    pub tags: Seq<(Seq<char>, Seq<char>)>,
}

impl View for MetricDataPoint {
    type V = PointView;

    open spec fn view(&self) -> PointView {
        PointView {
            timestamp: self.timestamp,
            metric_type: self.metric_type,
            value_bits: self.value_bits,
            tags: self.tags@.map_values(|p: (String, String)| (p.0@, p.1@)),
        }
    }
}

impl Duplicate for MetricDataPoint {
    fn dup(&self) -> (r: MetricDataPoint) {
        MetricDataPoint {
            timestamp: self.timestamp,
            metric_type: self.metric_type,
            value_bits: self.value_bits,
            tags: copy_config(&self.tags),
        }
    }
}

/// A value at a time.
pub struct DataPoint {
    pub timestamp: u64,
    pub value_bits: u64,
}

/// What to read back: metrics, an inclusive time range, how to summarise,
/// an optional bucket width in seconds, and an optional limit.
pub struct MetricsQuery {
    pub metric_types: Vec<MetricType>,
    pub start_time: u64,
    pub end_time: u64,
    pub aggregation: Option<AggregationType>,
    pub interval_secs: Option<u64>,
    pub limit: Option<usize>,
}

/// What to write out: a format, metrics and an inclusive time range.
pub struct MetricsExport {
    pub format: ExportFormat,
    pub metrics: Vec<MetricType>,
    pub start_time: u64,
    pub end_time: u64,
}

/// How long the points of a metric are kept and at what interval they are summarised.
#[derive(Clone, Copy, PartialEq, Eq, Structural, Debug)]
pub struct MetricsRetention {
    pub metric_type: MetricType,
    pub retention_days: u32,
    pub aggregation_interval_secs: u64,
}

/// The points recorded for one metric.
pub struct MetricSeries {
    pub metric_type: MetricType,
    pub points: Vec<MetricDataPoint>,
}

/// The points of metric `m` among the series `s` (by their metric), if any.
pub open spec fn series_points(s: Seq<(MetricType, Seq<PointView>)>, m: MetricType) -> Option<Seq<PointView>>
    decreases s.len(),
{
    if s.len() == 0 {
        None
    } else if s.last().0 == m {
        Some(s.last().1)
    } else {
        series_points(s.drop_last(), m)
    }
}

/// The points of `s` stamped within `[start, end]`, in order.
pub open spec fn points_between(s: Seq<PointView>, start: u64, end: u64) -> Seq<PointView>
    decreases s.len(),
{
    if s.len() == 0 {
        seq![]
    } else if start <= s.last().timestamp && s.last().timestamp <= end {
        points_between(s.drop_last(), start, end).push(s.last())
    } else {
        points_between(s.drop_last(), start, end)
    }
}

/// The points of `s` stamped after `cutoff`, in order.
pub open spec fn points_after(s: Seq<PointView>, cutoff: u64) -> Seq<PointView>
    decreases s.len(),
{
    if s.len() == 0 {
        seq![]
    } else if s.last().timestamp > cutoff {
        points_after(s.drop_last(), cutoff).push(s.last())
    } else {
        points_after(s.drop_last(), cutoff)
    }
}

/// The snapshots of `s` stamped within `[start, end]`, in order.
pub open spec fn snaps_between(s: Seq<SnapView>, start: u64, end: u64) -> Seq<SnapView>
    decreases s.len(),
{
    if s.len() == 0 {
        seq![]
    } else if start <= s.last().timestamp && s.last().timestamp <= end {
        snaps_between(s.drop_last(), start, end).push(s.last())
    } else {
        snaps_between(s.drop_last(), start, end)
    }
}

/// The number of leading snapshots of `s` older than `cutoff`.
pub open spec fn stale_prefix(s: Seq<SnapView>, cutoff: u64) -> nat
    decreases s.len(),
{
    if s.len() == 0 || s[0].timestamp >= cutoff {
        0
    } else {
        1 + stale_prefix(s.drop_first(), cutoff)
    }
}

/// `rs` with the retention `r` set for its metric: the first setting for the
/// metric changed in place, or `r` appended when there is none.
pub open spec fn with_retention(rs: Seq<MetricsRetention>, r: MetricsRetention) -> Seq<MetricsRetention> {
    if exists|i: int| 0 <= i < rs.len() && #[trigger] rs[i].metric_type == r.metric_type {
        rs.update(choose|i: int| 0 <= i < rs.len() && #[trigger] rs[i].metric_type == r.metric_type
            && forall|j: int| 0 <= j < i ==> #[trigger] rs[j].metric_type != r.metric_type, r)
    } else {
        rs.push(r)
    }
}

/// Seven days in milliseconds.
pub const WEEK_MS: u64 = 604_800_000;

/// Snapshots and per-metric series, each kept up to a bound, and retention settings.
pub struct MetricsHistory {
    snapshots: Vec<PerformanceSnapshot>,
    data_points: Vec<MetricSeries>,
    retention_policy: Vec<MetricsRetention>,
    max_history_size: usize,
}

/// The series of `v` as metric and point values.
pub open spec fn series_view(v: Seq<MetricSeries>) -> Seq<(MetricType, Seq<PointView>)> {
    v.map_values(|x: MetricSeries| (x.metric_type, views(x.points@)))
}

/// No metric has two series.
pub open spec fn unique_metrics(s: Seq<(MetricType, Seq<PointView>)>) -> bool {
    forall|i: int, j: int| 0 <= i < s.len() && 0 <= j < s.len() && i != j ==> #[trigger] s[i].0 != #[trigger] s[j].0
}

/// The plain content of optional tags (none when not given).
pub open spec fn tags_view(tags: Option<Vec<(String, String)>>) -> Seq<(Seq<char>, Seq<char>)> {
    match tags {
        Some(t) => t@.map_values(|p: (String, String)| (p.0@, p.1@)),
        None => seq![],
    }
}

/// The point recorded for `m` with value `v` at `now` with tags `tags`.
pub open spec fn point_of(m: MetricType, v: u64, tags: Seq<(Seq<char>, Seq<char>)>, now: u64) -> PointView {
    PointView { timestamp: now, metric_type: m, value_bits: v, tags }
}

/// The points of `m` after recording each of `batch` in turn at `now`.
pub open spec fn recorded_points(s: Seq<(MetricType, Seq<PointView>)>, max: usize, batch: Seq<(MetricType, u64)>, now: u64, m: MetricType) -> Option<Seq<PointView>>
    decreases batch.len(),
{
    if batch.len() == 0 {
        series_points(s, m)
    } else {
        let prev = recorded_points(s, max, batch.drop_last(), now, m);
        if batch.last().0 == m {
            Some(bounded_push(match prev { Some(p) => p, None => Seq::<PointView>::empty() }, max,
                point_of(m, batch.last().1, seq![], now)))
        } else {
            prev
        }
    }
}

proof fn lemma_series_points_index(s: Seq<(MetricType, Seq<PointView>)>, i: int)
    requires
        unique_metrics(s),
        0 <= i < s.len(),
    ensures
        series_points(s, s[i].0) == Some(s[i].1),
    decreases s.len(),
{
    if i < s.len() - 1 {
        let t = s.drop_last();
        assert(s.last().0 != s[i].0);
        assert(t[i] == s[i]);
        assert forall|a: int, b: int| 0 <= a < t.len() && 0 <= b < t.len() && a != b implies #[trigger] t[a].0 != #[trigger] t[b].0 by {
            assert(t[a] == s[a] && t[b] == s[b]);
        }
        lemma_series_points_index(t, i);
    }
}

proof fn lemma_series_points_absent(s: Seq<(MetricType, Seq<PointView>)>, m: MetricType)
    requires
        forall|i: int| 0 <= i < s.len() ==> #[trigger] s[i].0 != m,
    ensures
        series_points(s, m) is None,
    decreases s.len(),
{
    if s.len() > 0 {
        let t = s.drop_last();
        assert forall|i: int| 0 <= i < t.len() implies #[trigger] t[i].0 != m by {
            assert(t[i] == s[i]);
        }
        lemma_series_points_absent(t, m);
    }
}

proof fn lemma_series_points_other(s: Seq<(MetricType, Seq<PointView>)>, i: int, x: (MetricType, Seq<PointView>), m: MetricType)
    requires
        0 <= i <= s.len(),
        s.len() == i || s[i].0 == x.0,
        m != x.0,
    ensures
        series_points(if i == s.len() { s.push(x) } else { s.update(i, x) }, m) == series_points(s, m),
    decreases s.len(),
{
    let u = if i == s.len() { s.push(x) } else { s.update(i, x) };
    if i == s.len() {
        assert(u.drop_last() =~= s);
    } else if s.len() > 0 {
        if i == s.len() - 1 {
            assert(u.drop_last() =~= s.drop_last());
        } else {
            let t = s.drop_last();
            assert(u.drop_last() =~= t.update(i, x));
            lemma_series_points_other(t, i, x, m);
        }
    }
}

proof fn lemma_unique_after(s: Seq<(MetricType, Seq<PointView>)>, i: int, x: (MetricType, Seq<PointView>))
    requires
        unique_metrics(s),
        0 <= i <= s.len(),
        i < s.len() ==> s[i].0 == x.0,
        i == s.len() ==> forall|k: int| 0 <= k < s.len() ==> #[trigger] s[k].0 != x.0,
    ensures
        unique_metrics(if i == s.len() { s.push(x) } else { s.update(i, x) }),
{
    let u = if i == s.len() { s.push(x) } else { s.update(i, x) };
    assert forall|a: int, b: int| 0 <= a < u.len() && 0 <= b < u.len() && a != b implies #[trigger] u[a].0 != #[trigger] u[b].0 by {
        if a != i && b != i {
            assert(u[a] == s[a] && u[b] == s[b]);
        } else if a == i {
            if i < s.len() { assert(u[b] == s[b]); assert(s[a].0 != s[b].0); } else { assert(u[b] == s[b]); }
        } else {
            if i < s.len() { assert(u[a] == s[a]); assert(s[a].0 != s[b].0); } else { assert(u[a] == s[a]); }
        }
    }
}

/// The start of the bucket of width `w` holding time `t`.
pub open spec fn bucket_start(t: u64, w: u64) -> u64 {
    ((t / w) * w) as u64
}

/// The values of the points of `s` whose bucket of width `w` starts at `b`, in order.
pub open spec fn bucket_values(s: Seq<DataPoint>, b: u64, w: u64) -> Seq<u64>
    decreases s.len(),
{
    if s.len() == 0 {
        seq![]
    } else if bucket_start(s.last().timestamp, w) == b {
        bucket_values(s.drop_last(), b, w).push(s.last().value_bits)
    } else {
        bucket_values(s.drop_last(), b, w)
    }
}

/// Points grouped into a time bucket: its start and the values in it.
pub struct Bucket {
    pub start: u64,
    pub values: Vec<u64>,
}

/// `out` groups the points `s` into buckets of width `w`: one per bucket that
/// holds a point, in increasing order of start, each with the values of its
/// points in order.
pub open spec fn bucketed(out: Seq<Bucket>, s: Seq<DataPoint>, w: u64) -> bool {
    &&& forall|i: int, j: int| 0 <= i < j < out.len() ==> #[trigger] out[i].start < #[trigger] out[j].start
    &&& forall|i: int| 0 <= i < out.len() ==> (#[trigger] out[i]).values@ == bucket_values(s, out[i].start, w) && out[i].values@.len() > 0
    &&& forall|k: int| 0 <= k < s.len() ==> #[trigger] has_start(out, bucket_start(s[k].timestamp, w))
}

/// Some bucket of `out` starts at `b`.
pub open spec fn has_start(out: Seq<Bucket>, b: u64) -> bool {
    exists|i: int| 0 <= i < out.len() && #[trigger] out[i].start == b
}

proof fn lemma_bucket_values_push(s: Seq<DataPoint>, p: DataPoint, b: u64, w: u64)
    ensures
        bucket_values(s.push(p), b, w) == if bucket_start(p.timestamp, w) == b { bucket_values(s, b, w).push(p.value_bits) } else { bucket_values(s, b, w) },
{
    assert(s.push(p).drop_last() =~= s);
}

/// The points grouped into buckets of `interval_secs` seconds (see `bucketed`).
pub fn resample_points(points: &Vec<DataPoint>, interval_secs: u64) -> (out: Vec<Bucket>)
    requires
        interval_secs >= 1,
        interval_secs * 1000 <= i64::MAX,
    ensures
        bucketed(out@, points@, (interval_secs * 1000) as u64),
{
    let w: u64 = interval_secs * 1000;
    let n = points.len();
    let mut out: Vec<Bucket> = Vec::new();
    let mut i: usize = 0;
    while i < n
        invariant
            n == points@.len(),
            w == interval_secs * 1000,
            w >= 1,
            i <= n,
            bucketed(out@, points@.take(i as int), w),
        decreases n - i,
    {
        let ghost pre = points@.take(i as int);
        let ghost pre1 = points@.take(i + 1);
        proof { assert(pre1 =~= pre.push(points@[i as int])); }
        let t = points[i].timestamp;
        let v = points[i].value_bits;
        let q = t / w;
        proof {
            assert(q * w <= t) by (nonlinear_arith) requires w >= 1, q == t / w;
        }
        let b = q * w;
        proof {
            assert(b == bucket_start(t, w));
            assert forall|c: u64| #[trigger] bucket_values(pre1, c, w) == if bucket_start(t, w) == c { bucket_values(pre, c, w).push(v) } else { bucket_values(pre, c, w) } by {
                lemma_bucket_values_push(pre, points@[i as int], c, w);
            }
        }
        let m = out.len();
        let mut k: usize = 0;
        while k < m && out[k].start < b
            invariant
                m == out@.len(),
                k <= m,
                forall|j: int| 0 <= j < k ==> #[trigger] out@[j].start < b,
            decreases m - k,
        {
            k = k + 1;
        }
        let ghost old_out = out@;
        if k < m && out[k].start == b {
            let mut bk = out.remove(k);
            bk.values.push(v);
            out.insert(k, bk);
            proof {
                assert forall|a: int, c: int| 0 <= a < c < out@.len() implies #[trigger] out@[a].start < #[trigger] out@[c].start by {
                    assert(out@[a].start == old_out[a].start && out@[c].start == old_out[c].start);
                }
                assert forall|a: int| 0 <= a < out@.len() implies (#[trigger] out@[a]).values@ == bucket_values(pre1, out@[a].start, w) && out@[a].values@.len() > 0 by {
                    if a != k {
                        assert(out@[a] == old_out[a]);
                        assert(old_out[a].start != b);
                    }
                }
                assert forall|q: int| 0 <= q < pre1.len() implies #[trigger] has_start(out@, bucket_start(pre1[q].timestamp, w)) by {
                    if q < i {
                        assert(pre1[q] == pre[q]);
                        assert(has_start(old_out, bucket_start(pre[q].timestamp, w)));
                        let a = choose|a: int| 0 <= a < old_out.len() && #[trigger] old_out[a].start == bucket_start(pre[q].timestamp, w);
                        assert(out@[a].start == old_out[a].start);
                    } else {
                        assert(out@[k as int].start == b);
                    }
                }
            }
        } else {
            let mut vals: Vec<u64> = Vec::new();
            vals.push(v);
            out.insert(k, Bucket { start: b, values: vals });
            proof {
                assert(forall|j: int| 0 <= j < old_out.len() ==> #[trigger] old_out[j].start != b) by {
                    assert forall|j: int| 0 <= j < old_out.len() implies #[trigger] old_out[j].start != b by {
                        if j >= k {
                            if j > k { assert(old_out[k as int].start < old_out[j].start); }
                        }
                    }
                }
                assert forall|a: int, c: int| 0 <= a < c < out@.len() implies #[trigger] out@[a].start < #[trigger] out@[c].start by {
                    if a < k && c < k { assert(out@[a] == old_out[a] && out@[c] == old_out[c]); }
                    else if a < k && c == k { assert(out@[a] == old_out[a]); }
                    else if a < k && c > k { assert(out@[a] == old_out[a] && out@[c] == old_out[c - 1]); if c - 1 > a { assert(old_out[a].start < old_out[c - 1].start); } }
                    else if a == k { assert(out@[c] == old_out[c - 1]); if c - 1 > k as int { assert(old_out[k as int].start < old_out[c - 1].start); } }
                    else { assert(out@[a] == old_out[a - 1] && out@[c] == old_out[c - 1]); }
                }
                assert(bucket_values(pre, b, w) =~= Seq::<u64>::empty()) by {
                    lemma_no_bucket_values(pre, b, w, old_out);
                }
                assert forall|a: int| 0 <= a < out@.len() implies (#[trigger] out@[a]).values@ == bucket_values(pre1, out@[a].start, w) && out@[a].values@.len() > 0 by {
                    if a < k { assert(out@[a] == old_out[a]); }
                    else if a > k { assert(out@[a] == old_out[a - 1]); }
                    else { assert(out@[a].values@ =~= seq![v]); }
                }
                assert forall|q: int| 0 <= q < pre1.len() implies #[trigger] has_start(out@, bucket_start(pre1[q].timestamp, w)) by {
                    if q < i {
                        assert(pre1[q] == pre[q]);
                        assert(has_start(old_out, bucket_start(pre[q].timestamp, w)));
                        let a = choose|a: int| 0 <= a < old_out.len() && #[trigger] old_out[a].start == bucket_start(pre[q].timestamp, w);
                        if a < k { assert(out@[a] == old_out[a]); } else { assert(out@[a + 1] == old_out[a]); }
                    } else {
                        assert(out@[k as int].start == b);
                    }
                }
            }
        }
        i = i + 1;
    }
    assert(points@.take(n as int) =~= points@);
    out
}

proof fn lemma_no_bucket_values(s: Seq<DataPoint>, b: u64, w: u64, out: Seq<Bucket>)
    requires
        forall|k: int| 0 <= k < s.len() ==> #[trigger] has_start(out, bucket_start(s[k].timestamp, w)),
        forall|j: int| 0 <= j < out.len() ==> #[trigger] out[j].start != b,
    ensures
        bucket_values(s, b, w) == Seq::<u64>::empty(),
    decreases s.len(),
{
    if s.len() > 0 {
        let t = s.drop_last();
        assert forall|k: int| 0 <= k < t.len() implies #[trigger] has_start(out, bucket_start(t[k].timestamp, w)) by {
            assert(t[k] == s[k]);
            assert(has_start(out, bucket_start(s[k].timestamp, w)));
        }
        lemma_no_bucket_values(t, b, w, out);
        let last = s.len() - 1;
        assert(has_start(out, bucket_start(s[last].timestamp, w)));
        let i = choose|i: int| 0 <= i < out.len() && #[trigger] out[i].start == bucket_start(s[last].timestamp, w);
        assert(bucket_start(s.last().timestamp, w) != b);
    }
}

/// The points of one metric selected by a query.
pub struct QueryPart {
    pub metric_type: MetricType,
    pub points: Vec<DataPoint>,
}

/// The data points of `s` as time and value.
pub open spec fn as_data(s: Seq<PointView>) -> Seq<(u64, u64)> {
    s.map_values(|p: PointView| (p.timestamp, p.value_bits))
}

/// The metrics of `ms` in order that have a series, each with its points
/// within `[start, end]`.
pub open spec fn query_spec(s: Seq<(MetricType, Seq<PointView>)>, ms: Seq<MetricType>, start: u64, end: u64) -> Seq<(MetricType, Seq<(u64, u64)>)>
    decreases ms.len(),
{
    if ms.len() == 0 {
        seq![]
    } else {
        let prev = query_spec(s, ms.drop_last(), start, end);
        match series_points(s, ms.last()) {
            Some(p) => prev.push((ms.last(), as_data(points_between(p, start, end)))),
            None => prev,
        }
    }
}

/// The plain content of query parts.
pub open spec fn parts_view(v: Seq<QueryPart>) -> Seq<(MetricType, Seq<(u64, u64)>)> {
    v.map_values(|q: QueryPart| (q.metric_type, q.points@.map_values(|d: DataPoint| (d.timestamp, d.value_bits))))
}

fn select_points(v: &Vec<MetricDataPoint>, start: u64, end: u64) -> (r: Vec<MetricDataPoint>)
    ensures
        views(r@) == points_between(views(v@), start, end),
{
    let ghost s = views(v@);
    let n = v.len();
    let mut r: Vec<MetricDataPoint> = Vec::new();
    let mut i: usize = 0;
    while i < n
        invariant
            n == v@.len(),
            s == views(v@),
            i <= n,
            views(r@) == points_between(s.subrange(0, i as int), start, end),
        decreases n - i,
    {
        assert(s.subrange(0, i + 1).drop_last() =~= s.subrange(0, i as int));
        if start <= v[i].timestamp && v[i].timestamp <= end {
            let ghost before = views(r@);
            r.push(v[i].dup());
            assert(views(r@) =~= before.push(s[i as int]));
        }
        i = i + 1;
    }
    assert(s.subrange(0, n as int) =~= s);
    r
}

impl MetricsHistory {
    /// The recorded snapshots, oldest first.
    pub closed spec fn snaps(&self) -> Seq<SnapView> {
        views(self.snapshots@)
    }

    /// The series of points, one per metric, in the order the metrics first appeared.
    pub closed spec fn series(&self) -> Seq<(MetricType, Seq<PointView>)> {
        series_view(self.data_points@)
    }

    /// The retention settings, in the order added.
    pub closed spec fn retention(&self) -> Seq<MetricsRetention> {
        self.retention_policy@
    }

    /// How many snapshots, and how many points per metric, are kept.
    pub closed spec fn max_history(&self) -> usize {
        self.max_history_size
    }

    /// Each metric has at most one series.
    pub open spec fn wf(&self) -> bool {
        unique_metrics(self.series())
    }

    /// Nothing recorded; up to `max_history_size` snapshots and points per metric are kept.
    pub fn new(max_history_size: usize) -> (h: MetricsHistory)
        ensures
            h.wf(),
            h.snaps() == Seq::<SnapView>::empty(),
            h.series() == Seq::<(MetricType, Seq<PointView>)>::empty(),
            h.retention() == Seq::<MetricsRetention>::empty(),
            h.max_history() == max_history_size,
    {
        let h = MetricsHistory { snapshots: Vec::new(), data_points: Vec::new(), retention_policy: Vec::new(), max_history_size };
        assert(h.snaps() =~= Seq::<SnapView>::empty());
        assert(h.series() =~= Seq::<(MetricType, Seq<PointView>)>::empty());
        h
    }

    /// Nothing recorded; ten thousand entries are kept.
    pub fn with_default() -> (h: MetricsHistory)
        ensures
            h.wf(),
            h.snaps() == Seq::<SnapView>::empty(),
            h.series() == Seq::<(MetricType, Seq<PointView>)>::empty(),
            h.retention() == Seq::<MetricsRetention>::empty(),
            h.max_history() == 10000,
    {
        MetricsHistory::new(10000)
    }

    /// How many snapshots, and how many points per metric, are kept.
    pub fn max_history_size(&self) -> (n: usize)
        ensures
            n == self.max_history(),
    {
        self.max_history_size
    }

    /// Appends a snapshot, the oldest making way at the bound.
    pub fn record_snapshot(&mut self, snapshot: PerformanceSnapshot)
        ensures
            final(self).snaps() == bounded_push(old(self).snaps(), old(self).max_history(), snapshot@),
            final(self).series() == old(self).series(),
            final(self).retention() == old(self).retention(),
            final(self).max_history() == old(self).max_history(),
    {
        let ghost before = self.snaps();
        let ghost sv = snapshot@;
        if self.snapshots.len() >= self.max_history_size && self.snapshots.len() > 0 {
            let _ = self.snapshots.remove(0);
            assert(views(self.snapshots@) =~= before.drop_first());
        }
        let ghost mid = views(self.snapshots@);
        self.snapshots.push(snapshot);
        assert(self.snaps() =~= mid.push(sv));
    }

    fn find_series(&self, m: MetricType) -> (r: Option<usize>)
        requires
            self.wf(),
        ensures
            match r {
                Some(i) => i < self.series().len() && self.series()[i as int].0 == m,
                None => forall|k: int| 0 <= k < self.series().len() ==> #[trigger] self.series()[k].0 != m,
            },
    {
        let n = self.data_points.len();
        let mut i: usize = 0;
        while i < n
            invariant
                n == self.data_points@.len(),
                i <= n,
                forall|k: int| 0 <= k < i ==> #[trigger] self.series()[k].0 != m,
            decreases n - i,
        {
            if self.data_points[i].metric_type == m {
                return Some(i);
            }
            i = i + 1;
        }
        None
    }

    /// Adds a point of metric `metric_type` with value `value_bits` and tags
    /// (none when not given) at `now` to the metric's series, the oldest point
    /// making way at the bound; a metric without a series gets one.
    pub fn record_metric_at(&mut self, metric_type: MetricType, value_bits: u64, tags: Option<Vec<(String, String)>>, now: u64)
        requires
            old(self).wf(),
        ensures
            final(self).wf(),
            series_points(final(self).series(), metric_type) == Some(bounded_push(
                match series_points(old(self).series(), metric_type) { Some(p) => p, None => Seq::<PointView>::empty() },
                old(self).max_history(),
                point_of(metric_type, value_bits, tags_view(tags), now))),
            forall|m: MetricType| m != metric_type ==> #[trigger] series_points(final(self).series(), m) == series_points(old(self).series(), m),
            final(self).series().len() == old(self).series().len() + (if series_points(old(self).series(), metric_type) is Some { 0int } else { 1int }),
            final(self).snaps() == old(self).snaps(),
            final(self).retention() == old(self).retention(),
            final(self).max_history() == old(self).max_history(),
    {
        let point = MetricDataPoint {
            timestamp: now,
            metric_type,
            value_bits,
            tags: match tags { Some(t) => t, None => Vec::new() },
        };
        let ghost pv = point@;
        assert(pv == point_of(metric_type, value_bits, tags_view(tags), now)) by {
            if tags is None { assert(pv.tags =~= seq![]); }
        }
        let ghost s = self.series();
        let max = self.max_history_size;
        match self.find_series(metric_type) {
            Some(i) => {
                proof { lemma_series_points_index(s, i as int); }
                let mut series = self.data_points.remove(i);
                let ghost before = views(series.points@);
                if series.points.len() >= max && series.points.len() > 0 {
                    let _ = series.points.remove(0);
                    assert(views(series.points@) =~= before.drop_first());
                }
                let ghost mid = views(series.points@);
                series.points.push(point);
                assert(views(series.points@) =~= mid.push(pv));
                let ghost x = (metric_type, views(series.points@));
                self.data_points.insert(i, series);
                assert(self.series() =~= s.update(i as int, x));
                proof {
                    lemma_unique_after(s, i as int, x);
                    lemma_series_points_index(self.series(), i as int);
                    assert forall|m: MetricType| m != metric_type implies #[trigger] series_points(self.series(), m) == series_points(s, m) by {
                        lemma_series_points_other(s, i as int, x, m);
                    }
                }
            }
            None => {
                proof { lemma_series_points_absent(s, metric_type); }
                let mut points: Vec<MetricDataPoint> = Vec::new();
                points.push(point);
                let ghost x = (metric_type, views(points@));
                assert(views(points@) =~= bounded_push(Seq::<PointView>::empty(), max, pv));
                self.data_points.push(MetricSeries { metric_type, points });
                assert(self.series() =~= s.push(x));
                proof {
                    lemma_unique_after(s, s.len() as int, x);
                    lemma_series_points_index(self.series(), s.len() as int);
                    assert forall|m: MetricType| m != metric_type implies #[trigger] series_points(self.series(), m) == series_points(s, m) by {
                        lemma_series_points_other(s, s.len() as int, x, m);
                    }
                }
            }
        }
    }

    /// `record_metric_at` at the current time.
    pub fn record_metric(&mut self, metric_type: MetricType, value_bits: u64, tags: Option<Vec<(String, String)>>)
        requires
            old(self).wf(),
        ensures
            final(self).wf(),
            exists|now: u64| series_points(final(self).series(), metric_type) == Some(bounded_push(
                match series_points(old(self).series(), metric_type) { Some(p) => p, None => Seq::<PointView>::empty() },
                old(self).max_history(),
                #[trigger] point_of(metric_type, value_bits, tags_view(tags), now))),
            forall|m: MetricType| m != metric_type ==> #[trigger] series_points(final(self).series(), m) == series_points(old(self).series(), m),
            final(self).snaps() == old(self).snaps(),
            final(self).retention() == old(self).retention(),
            final(self).max_history() == old(self).max_history(),
    {
        self.record_metric_at(metric_type, value_bits, tags, now_millis_unsigned())
    }

    /// Records each of `metrics` in turn at `now`, without tags.
    pub fn record_batch_at(&mut self, metrics: &Vec<(MetricType, u64)>, now: u64)
        requires
            old(self).wf(),
        ensures
            final(self).wf(),
            forall|m: MetricType| #[trigger] series_points(final(self).series(), m)
                == recorded_points(old(self).series(), old(self).max_history(), metrics@, now, m),
            final(self).snaps() == old(self).snaps(),
            final(self).retention() == old(self).retention(),
            final(self).max_history() == old(self).max_history(),
    {
        let n = metrics.len();
        let mut i: usize = 0;
        while i < n
            invariant
                n == metrics@.len(),
                i <= n,
                self.wf(),
                forall|m: MetricType| #[trigger] series_points(self.series(), m)
                    == recorded_points(old(self).series(), old(self).max_history(), metrics@.take(i as int), now, m),
                self.snaps() == old(self).snaps(),
                self.retention() == old(self).retention(),
                self.max_history() == old(self).max_history(),
            decreases n - i,
        {
            let (m, v) = metrics[i];
            proof {
                assert(metrics@.take(i + 1).drop_last() =~= metrics@.take(i as int));
                assert(metrics@.take(i + 1).last() == (m, v));
            }
            self.record_metric_at(m, v, None, now);
            assert forall|k: MetricType| #[trigger] series_points(self.series(), k)
                == recorded_points(old(self).series(), old(self).max_history(), metrics@.take(i + 1), now, k) by {
                if k == m {
                    assert(point_of(m, v, seq![], now) == point_of(m, v, Seq::<(Seq<char>, Seq<char>)>::empty(), now));
                }
            }
            i = i + 1;
        }
        assert(metrics@.take(n as int) =~= metrics@);
    }

    /// The oldest snapshot stamped `timestamp`, if any.
    pub fn get_snapshot(&self, timestamp: u64) -> (r: Option<PerformanceSnapshot>)
        ensures
            match r {
                Some(x) => exists|i: int| 0 <= i < self.snaps().len() && #[trigger] self.snaps()[i].timestamp == timestamp
                    && (forall|j: int| 0 <= j < i ==> #[trigger] self.snaps()[j].timestamp != timestamp)
                    && x@ == self.snaps()[i],
                None => forall|i: int| 0 <= i < self.snaps().len() ==> #[trigger] self.snaps()[i].timestamp != timestamp,
            },
    {
        let n = self.snapshots.len();
        let mut i: usize = 0;
        while i < n
            invariant
                n == self.snapshots@.len(),
                i <= n,
                forall|j: int| 0 <= j < i ==> #[trigger] self.snaps()[j].timestamp != timestamp,
            decreases n - i,
        {
            if self.snapshots[i].timestamp == timestamp {
                assert(self.snaps()[i as int].timestamp == timestamp);
                return Some(self.snapshots[i].dup());
            }
            i = i + 1;
        }
        None
    }

    /// The newest snapshot, if any.
    pub fn get_latest_snapshot(&self) -> (r: Option<PerformanceSnapshot>)
        ensures
            match r {
                Some(x) => self.snaps().len() > 0 && x@ == self.snaps().last(),
                None => self.snaps().len() == 0,
            },
    {
        let n = self.snapshots.len();
        if n == 0 { None } else { Some(self.snapshots[n - 1].dup()) }
    }

    /// The snapshots stamped within `[start, end]`, oldest first.
    pub fn get_snapshots(&self, start: u64, end: u64) -> (r: Vec<PerformanceSnapshot>)
        ensures
            views(r@) == snaps_between(self.snaps(), start, end),
    {
        let ghost s = self.snaps();
        let n = self.snapshots.len();
        let mut r: Vec<PerformanceSnapshot> = Vec::new();
        let mut i: usize = 0;
        while i < n
            invariant
                n == self.snapshots@.len(),
                s == self.snaps(),
                i <= n,
                views(r@) == snaps_between(s.subrange(0, i as int), start, end),
            decreases n - i,
        {
            assert(s.subrange(0, i + 1).drop_last() =~= s.subrange(0, i as int));
            if start <= self.snapshots[i].timestamp && self.snapshots[i].timestamp <= end {
                let ghost before = views(r@);
                r.push(self.snapshots[i].dup());
                assert(views(r@) =~= before.push(s[i as int]));
            }
            i = i + 1;
        }
        assert(s.subrange(0, n as int) =~= s);
        r
    }

    /// The points of `metric_type` stamped within `[start, end]`, oldest first
    /// (none when the metric has no series).
    pub fn get_metric_history(&self, metric_type: MetricType, start: u64, end: u64) -> (r: Vec<MetricDataPoint>)
        requires
            self.wf(),
        ensures
            views(r@) == match series_points(self.series(), metric_type) {
                Some(p) => points_between(p, start, end),
                None => Seq::<PointView>::empty(),
            },
    {
        match self.find_series(metric_type) {
            Some(i) => {
                proof { lemma_series_points_index(self.series(), i as int); }
                select_points(&self.data_points[i].points, start, end)
            }
            None => {
                proof { lemma_series_points_absent(self.series(), metric_type); }
                let r: Vec<MetricDataPoint> = Vec::new();
                assert(views(r@) =~= Seq::<PointView>::empty());
                r
            }
        }
    }

    /// The value (a double's bit pattern) of the newest point of `metric_type`, if any.
    pub fn get_latest_value(&self, metric_type: MetricType) -> (r: Option<u64>)
        requires
            self.wf(),
        ensures
            r == match series_points(self.series(), metric_type) {
                Some(p) => if p.len() > 0 { Some(p.last().value_bits) } else { None },
                None => None,
            },
    {
        match self.find_series(metric_type) {
            Some(i) => {
                proof { lemma_series_points_index(self.series(), i as int); }
                let pts = &self.data_points[i].points;
                if pts.len() == 0 { None } else { Some(pts[pts.len() - 1].value_bits) }
            }
            None => {
                proof { lemma_series_points_absent(self.series(), metric_type); }
                None
            }
        }
    }

    /// The values of the points of `metric_type` from the last `duration_secs`
    /// seconds before `now` (strictly later than that cutoff), oldest first;
    /// none when the metric has no series. Statistics over them are the caller's.
    pub fn window_values_at(&self, metric_type: MetricType, duration_secs: u64, now: u64) -> (r: Option<Vec<u64>>)
        requires
            self.wf(),
        ensures
            match series_points(self.series(), metric_type) {
                Some(p) => r matches Some(v) && v@ == points_after(p, seconds_before(now, duration_secs)).map_values(|q: PointView| q.value_bits),
                None => r is None,
            },
    {
        let cutoff = time_seconds_before(now, duration_secs);
        match self.find_series(metric_type) {
            Some(i) => {
                proof { lemma_series_points_index(self.series(), i as int); }
                let pts = &self.data_points[i].points;
                let ghost s = views(pts@);
                let n = pts.len();
                let mut r: Vec<u64> = Vec::new();
                let mut k: usize = 0;
                while k < n
                    invariant
                        n == pts@.len(),
                        s == views(pts@),
                        k <= n,
                        r@ == points_after(s.subrange(0, k as int), cutoff).map_values(|q: PointView| q.value_bits),
                    decreases n - k,
                {
                    assert(s.subrange(0, k + 1).drop_last() =~= s.subrange(0, k as int));
                    if pts[k].timestamp > cutoff {
                        let ghost before = points_after(s.subrange(0, k as int), cutoff);
                        r.push(pts[k].value_bits);
                        assert(r@ =~= before.push(s[k as int]).map_values(|q: PointView| q.value_bits));
                    }
                    k = k + 1;
                }
                assert(s.subrange(0, n as int) =~= s);
                Some(r)
            }
            None => {
                proof { lemma_series_points_absent(self.series(), metric_type); }
                None
            }
        }
    }

    /// For each metric of the query in turn that has a series, its points
    /// within the query's time range (see `query_spec`); grouping into
    /// buckets and statistics are done over these.
    pub fn query_points(&self, query: &MetricsQuery) -> (r: Vec<QueryPart>)
        requires
            self.wf(),
        ensures
            parts_view(r@) == query_spec(self.series(), query.metric_types@, query.start_time, query.end_time),
    {
        let ms = &query.metric_types;
        let n = ms.len();
        let mut r: Vec<QueryPart> = Vec::new();
        let mut i: usize = 0;
        while i < n
            invariant
                n == ms@.len(),
                i <= n,
                self.wf(),
                parts_view(r@) == query_spec(self.series(), ms@.take(i as int), query.start_time, query.end_time),
            decreases n - i,
        {
            let m = ms[i];
            proof {
                assert(ms@.take(i + 1).drop_last() =~= ms@.take(i as int));
                assert(ms@.take(i + 1).last() == m);
            }
            let sel = self.get_metric_history(m, query.start_time, query.end_time);
            let found = self.find_series(m);
            if let Some(idx) = found {
                proof { lemma_series_points_index(self.series(), idx as int); }
                let ghost sv = views(sel@);
                let mut pts: Vec<DataPoint> = Vec::new();
                let k_n = sel.len();
                let mut k: usize = 0;
                while k < k_n
                    invariant
                        k_n == sel@.len(),
                        sv == views(sel@),
                        k <= k_n,
                        pts@.map_values(|d: DataPoint| (d.timestamp, d.value_bits)) == as_data(sv.take(k as int)),
                    decreases k_n - k,
                {
                    let ghost before = pts@.map_values(|d: DataPoint| (d.timestamp, d.value_bits));
                    pts.push(DataPoint { timestamp: sel[k].timestamp, value_bits: sel[k].value_bits });
                    proof {
                        assert(sv.take(k + 1) =~= sv.take(k as int).push(sv[k as int]));
                        assert(as_data(sv.take(k + 1)) =~= as_data(sv.take(k as int)).push((sv[k as int].timestamp, sv[k as int].value_bits)));
                        assert(pts@.map_values(|d: DataPoint| (d.timestamp, d.value_bits)) =~= before.push((sv[k as int].timestamp, sv[k as int].value_bits)));
                    }
                    k = k + 1;
                }
                assert(sv.take(k_n as int) =~= sv);
                let ghost before = parts_view(r@);
                r.push(QueryPart { metric_type: m, points: pts });
                assert(parts_view(r@) =~= before.push((m, as_data(sv))));
            } else {
                proof { lemma_series_points_absent(self.series(), m); }
            }
            i = i + 1;
        }
        assert(ms@.take(n as int) =~= ms@);
        r
    }

    /// Sets the retention of `metric_type`: the first setting for it is
    /// changed in place, or a new one is appended.
    pub fn set_retention(&mut self, metric_type: MetricType, retention_days: u32, interval_secs: u64)
        ensures
            final(self).retention() == with_retention(old(self).retention(),
                MetricsRetention { metric_type, retention_days, aggregation_interval_secs: interval_secs }),
            final(self).snaps() == old(self).snaps(),
            final(self).series() == old(self).series(),
            final(self).max_history() == old(self).max_history(),
    {
        let nr = MetricsRetention { metric_type, retention_days, aggregation_interval_secs: interval_secs };
        let n = self.retention_policy.len();
        let mut i: usize = 0;
        while i < n
            invariant
                n == self.retention_policy@.len(),
                nr == (MetricsRetention { metric_type, retention_days, aggregation_interval_secs: interval_secs }),
                *self == *old(self),
                i <= n,
                forall|j: int| 0 <= j < i ==> #[trigger] self.retention_policy@[j].metric_type != metric_type,
            decreases n - i,
        {
            if self.retention_policy[i].metric_type == metric_type {
                proof {
                    let old_r = old(self).retention();
                    let r = nr;
                    assert(old_r[i as int].metric_type == r.metric_type);
                    assert(0 <= i < old_r.len() && old_r[i as int].metric_type == r.metric_type
                        && forall|j: int| 0 <= j < i ==> #[trigger] old_r[j].metric_type != r.metric_type);
                    let c = choose|c: int| 0 <= c < old_r.len() && #[trigger] old_r[c].metric_type == r.metric_type
                        && forall|j: int| 0 <= j < c ==> #[trigger] old_r[j].metric_type != r.metric_type;
                    assert(c == i) by {
                        if c < i { assert(old_r[c].metric_type != metric_type); }
                        if c > i { assert(old_r[i as int].metric_type != metric_type); }
                    }
                }
                self.retention_policy.set(i, nr);
                return;
            }
            i = i + 1;
        }
        self.retention_policy.push(nr);
    }

    /// Drops the snapshots at the front that are older than a week before
    /// `now` and says how many went.
    pub fn cleanup_old_data_at(&mut self, now: u64) -> (removed: usize)
        ensures
            removed == stale_prefix(old(self).snaps(), now.saturating_sub(WEEK_MS)),
            final(self).snaps() == old(self).snaps().skip(removed as int),
            final(self).series() == old(self).series(),
            final(self).retention() == old(self).retention(),
            final(self).max_history() == old(self).max_history(),
    {
        let cutoff = now.saturating_sub(WEEK_MS);
        let ghost s = self.snaps();
        let n = self.snapshots.len();
        let mut k: usize = 0;
        assert(s.skip(0) =~= s);
        while k < n && self.snapshots[k].timestamp < cutoff
            invariant
                n == self.snapshots@.len(),
                s == self.snaps(),
                k <= n,
                stale_prefix(s, cutoff) == k + stale_prefix(s.skip(k as int), cutoff),
            decreases n - k,
        {
            assert(s.skip(k as int).drop_first() =~= s.skip(k + 1));
            k = k + 1;
        }
        proof {
            if k < n {
                assert(s.skip(k as int)[0] == s[k as int]);
            } else {
                assert(s.skip(k as int).len() == 0);
            }
        }
        let mut kept: Vec<PerformanceSnapshot> = Vec::new();
        let mut j: usize = k;
        while j < n
            invariant
                n == self.snapshots@.len(),
                s == self.snaps(),
                k <= j <= n,
                views(kept@) == s.subrange(k as int, j as int),
            decreases n - j,
        {
            let ghost before = views(kept@);
            kept.push(self.snapshots[j].dup());
            assert(views(kept@) =~= before.push(s[j as int]));
            j = j + 1;
            assert(views(kept@) =~= s.subrange(k as int, j as int));
        }
        self.snapshots = kept;
        assert(self.snaps() =~= s.skip(k as int));
        k
    }

    /// `cleanup_old_data_at` at the current time.
    pub fn cleanup_old_data(&mut self) -> (removed: usize)
        ensures
            exists|now: u64| removed == stale_prefix(old(self).snaps(), now.saturating_sub(WEEK_MS)),
            final(self).snaps() == old(self).snaps().skip(removed as int),
            final(self).series() == old(self).series(),
            final(self).retention() == old(self).retention(),
            final(self).max_history() == old(self).max_history(),
    {
        self.cleanup_old_data_at(now_millis_unsigned())
    }

    /// How many snapshots are kept now.
    pub fn get_history_size(&self) -> (n: usize)
        ensures
            n == self.snaps().len(),
    {
        self.snapshots.len()
    }

    /// How many metrics have a series.
    pub fn get_metric_count(&self) -> (n: usize)
        ensures
            n == self.series().len(),
    {
        self.data_points.len()
    }

    /// Forgets the series of `metric_type`.
    pub fn clear_metric(&mut self, metric_type: MetricType)
        requires
            old(self).wf(),
        ensures
            final(self).wf(),
            series_points(final(self).series(), metric_type) is None,
            forall|m: MetricType| m != metric_type ==> #[trigger] series_points(final(self).series(), m) == series_points(old(self).series(), m),
            final(self).snaps() == old(self).snaps(),
            final(self).retention() == old(self).retention(),
            final(self).max_history() == old(self).max_history(),
    {
        match self.find_series(metric_type) {
            Some(i) => {
                let ghost s = self.series();
                let _ = self.data_points.remove(i);
                assert(self.series() =~= s.remove(i as int));
                proof {
                    let t = self.series();
                    assert forall|a: int, b: int| 0 <= a < t.len() && 0 <= b < t.len() && a != b implies #[trigger] t[a].0 != #[trigger] t[b].0 by {
                        let a2 = if a < i { a } else { a + 1 };
                        let b2 = if b < i { b } else { b + 1 };
                        assert(t[a] == s[a2] && t[b] == s[b2]);
                    }
                    assert forall|k: int| 0 <= k < t.len() implies #[trigger] t[k].0 != metric_type by {
                        let k2 = if k < i { k } else { k + 1 };
                        assert(t[k] == s[k2]);
                    }
                    lemma_series_points_absent(t, metric_type);
                    assert forall|m: MetricType| m != metric_type implies #[trigger] series_points(t, m) == series_points(s, m) by {
                        if exists|q: int| 0 <= q < s.len() && #[trigger] s[q].0 == m {
                            let q = choose|q: int| 0 <= q < s.len() && #[trigger] s[q].0 == m;
                            lemma_series_points_index(s, q);
                            let q2 = if q < i { q } else { q - 1 };
                            assert(t[q2] == s[q]);
                            lemma_series_points_index(t, q2);
                        } else {
                            lemma_series_points_absent(s, m);
                            assert forall|k: int| 0 <= k < t.len() implies #[trigger] t[k].0 != m by {
                                let k2 = if k < i { k } else { k + 1 };
                                assert(t[k] == s[k2]);
                            }
                            lemma_series_points_absent(t, m);
                        }
                    }
                }
            }
            None => {
                proof { lemma_series_points_absent(self.series(), metric_type); }
            }
        }
    }

    /// Forgets every snapshot and series.
    pub fn clear_all(&mut self)
        ensures
            final(self).wf(),
            final(self).snaps() == Seq::<SnapView>::empty(),
            final(self).series() == Seq::<(MetricType, Seq<PointView>)>::empty(),
            final(self).retention() == old(self).retention(),
            final(self).max_history() == old(self).max_history(),
    {
        self.snapshots = Vec::new();
        self.data_points = Vec::new();
        assert(self.snaps() =~= Seq::<SnapView>::empty());
        assert(self.series() =~= Seq::<(MetricType, Seq<PointView>)>::empty());
    }
}

/// A point just recorded for a metric is the newest of its series and the
/// value read back as its latest, and the series stays within the bound
/// (when the bound is at least one).
pub proof fn law_recorded_value_is_latest(h1: MetricsHistory, h2: MetricsHistory, m: MetricType, p: PointView)
    requires
        series_points(h2.series(), m) == Some(bounded_push(
            match series_points(h1.series(), m) { Some(q) => q, None => Seq::<PointView>::empty() }, h1.max_history(), p)),
        h1.max_history() > 0,
        match series_points(h1.series(), m) { Some(q) => q.len() <= h1.max_history(), None => true },
    ensures
        series_points(h2.series(), m) matches Some(q) && q.len() > 0 && q.last() == p && q.len() <= h1.max_history(),
{
}

} // verus!
