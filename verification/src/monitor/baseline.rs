//! Learning what is normal for each metric: the configuration per metric,
//! the recent samples per metric (bounded), baseline profiles, and the
//! history of anomalies (bounded) with their severity. Samples and the
//! figures of baselines and anomalies are IEEE double bit patterns; the
//! statistics over the samples are the owner's. Times are milliseconds.
use vstd::prelude::*;
use crate::keyed::{Keyed, Store, lemma_store_keys};
use crate::text::{owned, str_eq, strings_view};
use crate::dup::{Duplicate, views, dup_vec, newest_dup};
use crate::ids::{new_uuid_string, is_hyphenated_uuid};
use crate::clock::now_millis_unsigned;
use crate::security::audit_log::newest;
use crate::monitor::types::{MetricType, metric_name, double_lt, double_less};
use crate::monitor::network::{seconds_before, time_seconds_before};

verus! {

/// How far from normal a value must be to count as an anomaly.
#[derive(Clone, Copy, PartialEq, Eq, Structural, Debug)]
pub enum BaselineSensitivity {
    Low,
    Medium,
    High,
}

/// The deviation, in standard deviations, at which sensitivity `s` reports
/// an anomaly, as a double bit pattern: 3.0, 2.0 or 1.5.
pub open spec fn threshold_bits(s: BaselineSensitivity) -> u64 {
    match s {
        BaselineSensitivity::Low => 0x4008_0000_0000_0000,
        BaselineSensitivity::Medium => 0x4000_0000_0000_0000,
        BaselineSensitivity::High => 0x3ff8_0000_0000_0000,
    }
}

impl BaselineSensitivity {
    /// The deviation at which this sensitivity reports an anomaly (see `threshold_bits`).
    pub fn deviation_threshold(&self) -> (b: u64)
        ensures
            b == threshold_bits(*self),
    {
        match self {
            BaselineSensitivity::Low => 0x4008_0000_0000_0000,
            BaselineSensitivity::Medium => 0x4000_0000_0000_0000,
            BaselineSensitivity::High => 0x3ff8_0000_0000_0000,
        }
    }
}

/// How bad an anomaly is.
#[derive(Clone, Copy, PartialEq, Eq, Structural, Debug)]
pub enum AnomalySeverity {
    Low,
    Medium,
    High,
    Critical,
}

/// How a metric's baseline is learned.
#[derive(Clone, Copy, PartialEq, Eq, Structural, Debug)]
pub struct BaselineConfig {
    pub metric_type: MetricType,
    pub learning_window_secs: u64,
    pub min_samples: usize,
    pub auto_update: bool,
    pub update_interval_secs: u64,
    pub sensitivity: BaselineSensitivity,
    pub enabled: bool,
}

impl Keyed for BaselineConfig {
    open spec fn key_view(&self) -> Seq<char> {
        metric_name(self.metric_type)
    }

    fn key_str(&self) -> (r: &str) {
        self.metric_type.as_str()
    }
}

/// The learned figures of a metric.
#[derive(Clone, Copy, PartialEq, Eq, Structural, Debug)]
pub struct BaselineMetrics {
    pub metric_type: MetricType,
    pub mean_bits: u64,
    pub std_dev_bits: u64,
    pub min_bits: u64,
    pub max_bits: u64,
    pub p50_bits: u64,
    pub p95_bits: u64,
    pub p99_bits: u64,
    pub sample_count: usize,
    pub updated_at: u64,
}

/// A baseline for the hours from `start_hour` to `end_hour`.
pub struct TimeWindowBaseline {
    pub window_name: String,
    pub start_hour: u8,
    pub end_hour: u8,
    pub baseline: BaselineMetrics,
}

/// The plain content of a time-window baseline.
pub struct WindowView {
    pub window_name: Seq<char>,
    pub start_hour: u8,
    pub end_hour: u8,
    pub baseline: BaselineMetrics,
}

impl View for TimeWindowBaseline {
    type V = WindowView;

    open spec fn view(&self) -> WindowView {
        WindowView { window_name: self.window_name@, start_hour: self.start_hour, end_hour: self.end_hour, baseline: self.baseline }
    }
}

impl Duplicate for TimeWindowBaseline {
    fn dup(&self) -> (r: TimeWindowBaseline) {
        TimeWindowBaseline { window_name: self.window_name.clone(), start_hour: self.start_hour, end_hour: self.end_hour, baseline: self.baseline }
    }
}

/// A named baseline of a profile.
pub struct NamedBaseline {
    pub name: String,
    pub metrics: BaselineMetrics,
}

/// The plain content of a named baseline.
pub struct NamedView {
    pub name: Seq<char>,
    pub metrics: BaselineMetrics,
}

impl View for NamedBaseline {
    type V = NamedView;

    open spec fn view(&self) -> NamedView {
        NamedView { name: self.name@, metrics: self.metrics }
    }
}

impl Duplicate for NamedBaseline {
    fn dup(&self) -> (r: NamedBaseline) {
        NamedBaseline { name: self.name.clone(), metrics: self.metrics }
    }
}

/// A profile of what is normal for a metric.
pub struct BaselineProfile {
    pub id: String,
    pub name: String,
    pub metric_type: MetricType,
    pub baselines: Vec<NamedBaseline>,
    pub time_windows: Vec<TimeWindowBaseline>,
    pub created_at: u64,
    pub updated_at: u64,
}

/// The plain content of a profile.
pub struct ProfileView {
    pub id: Seq<char>,
    pub name: Seq<char>,
    pub metric_type: MetricType,
    pub baselines: Seq<NamedView>,
    pub time_windows: Seq<WindowView>,
    pub created_at: u64,
    pub updated_at: u64,
}

impl View for BaselineProfile {
    type V = ProfileView;

    open spec fn view(&self) -> ProfileView {
        ProfileView {
            id: self.id@,
            name: self.name@,
            metric_type: self.metric_type,
            baselines: views(self.baselines@),
            time_windows: views(self.time_windows@),
            created_at: self.created_at,
            updated_at: self.updated_at,
        }
    }
}

impl Duplicate for BaselineProfile {
    fn dup(&self) -> (r: BaselineProfile) {
        BaselineProfile {
            id: self.id.clone(),
            name: self.name.clone(),
            metric_type: self.metric_type,
            baselines: dup_vec(&self.baselines),
            time_windows: dup_vec(&self.time_windows),
            created_at: self.created_at,
            updated_at: self.updated_at,
        }
    }
}

impl Keyed for BaselineProfile {
    open spec fn key_view(&self) -> Seq<char> {
        self.id@
    }

    fn key_str(&self) -> (r: &str) {
        self.id.as_str()
    }
}

/// A value found far from its metric's baseline.
pub struct AnomalyAlert {
    pub id: String,
    pub metric_type: MetricType,
    pub baseline_id: String,
    pub current_value_bits: u64,
    pub expected_min_bits: u64,
    pub expected_max_bits: u64,
    pub deviation_score_bits: u64,
    pub severity: AnomalySeverity,
    pub timestamp: u64,
    pub acknowledged: bool,
}

/// The plain content of an anomaly.
pub struct AnomalyView {
    pub id: Seq<char>,
    pub metric_type: MetricType,
    pub baseline_id: Seq<char>,
    pub current_value_bits: u64,
    pub expected_min_bits: u64,
    pub expected_max_bits: u64,
    pub deviation_score_bits: u64,
    pub severity: AnomalySeverity,
    pub timestamp: u64,
    pub acknowledged: bool,
}

impl View for AnomalyAlert {
    type V = AnomalyView;

    open spec fn view(&self) -> AnomalyView {
        AnomalyView {
            id: self.id@,
            metric_type: self.metric_type,
            baseline_id: self.baseline_id@,
            current_value_bits: self.current_value_bits,
            expected_min_bits: self.expected_min_bits,
            expected_max_bits: self.expected_max_bits,
            deviation_score_bits: self.deviation_score_bits,
            severity: self.severity,
            timestamp: self.timestamp,
            acknowledged: self.acknowledged,
        }
    }
}

impl Duplicate for AnomalyAlert {
    fn dup(&self) -> (r: AnomalyAlert) {
        AnomalyAlert {
            id: self.id.clone(),
            metric_type: self.metric_type,
            baseline_id: self.baseline_id.clone(),
            current_value_bits: self.current_value_bits,
            expected_min_bits: self.expected_min_bits,
            expected_max_bits: self.expected_max_bits,
            deviation_score_bits: self.deviation_score_bits,
            severity: self.severity,
            timestamp: self.timestamp,
            acknowledged: self.acknowledged,
        }
    }
}

/// The recent samples of one metric, oldest first.
pub struct SampleLog {
    pub metric_type: MetricType,
    pub values: Vec<u64>,
}

impl Keyed for SampleLog {
    open spec fn key_view(&self) -> Seq<char> {
        metric_name(self.metric_type)
    }

    fn key_str(&self) -> (r: &str) {
        self.metric_type.as_str()
    }
}

// ---------------------------------------------------------------------------
// What the operations do
// ---------------------------------------------------------------------------

/// `s` after adding `x` with at most `max` kept: when `s` is full the
/// oldest entry goes first (and an empty `s` always takes `x`).
pub open spec fn bounded_push<T>(s: Seq<T>, x: T, max: nat) -> Seq<T> {
    if s.len() >= max && s.len() > 0 { s.drop_first().push(x) } else { s.push(x) }
}

/// `s` after adding each of `xs` in turn (see `bounded_push`).
pub open spec fn bounded_push_all<T>(s: Seq<T>, xs: Seq<T>, max: nat) -> Seq<T>
    decreases xs.len(),
{
    if xs.len() == 0 { s } else { bounded_push(bounded_push_all(s, xs.drop_last(), max), xs.last(), max) }
}

/// The severity of an anomaly that lies `d` standard deviations out (a
/// double bit pattern): beyond 4 critical, beyond 3 high, beyond 2 medium,
/// otherwise low.
pub open spec fn severity_of(d: u64) -> AnomalySeverity {
    if double_lt(0x4010_0000_0000_0000, d) { AnomalySeverity::Critical }
    else if double_lt(0x4008_0000_0000_0000, d) { AnomalySeverity::High }
    else if double_lt(0x4000_0000_0000_0000, d) { AnomalySeverity::Medium }
    else { AnomalySeverity::Low }
}

/// The configuration a metric starts with, when it is one of those set up by default.
pub open spec fn default_config(m: MetricType) -> BaselineConfig {
    match m {
        MetricType::Tps => BaselineConfig {
            metric_type: m, learning_window_secs: 7200, min_samples: 200, auto_update: true,
            update_interval_secs: 600, sensitivity: BaselineSensitivity::High, enabled: true,
        },
        _ => BaselineConfig {
            metric_type: m, learning_window_secs: 3600, min_samples: 100, auto_update: true,
            update_interval_secs: 300, sensitivity: BaselineSensitivity::Medium, enabled: true,
        },
    }
}

/// The anomalies of `s` later than `cutoff`, in order.
pub open spec fn anomalies_after(s: Seq<AnomalyView>, cutoff: u64) -> Seq<AnomalyView>
    decreases s.len(),
{
    if s.len() == 0 {
        seq![]
    } else if s.last().timestamp > cutoff {
        anomalies_after(s.drop_last(), cutoff).push(s.last())
    } else {
        anomalies_after(s.drop_last(), cutoff)
    }
}

/// The named baselines of `s` not named `name`, in order.
pub open spec fn without_named(s: Seq<NamedView>, name: Seq<char>) -> Seq<NamedView>
    decreases s.len(),
{
    if s.len() == 0 {
        seq![]
    } else if s.last().name == name {
        without_named(s.drop_last(), name)
    } else {
        without_named(s.drop_last(), name).push(s.last())
    }
}

/// The position of the first anomaly of `s` with id `id`, if any.
pub open spec fn first_with_id(s: Seq<AnomalyView>, id: Seq<char>) -> Option<int> {
    if exists|i: int| 0 <= i < s.len() && #[trigger] s[i].id == id {
        Some(choose|i: int| 0 <= i < s.len() && #[trigger] s[i].id == id && forall|j: int| 0 <= j < i ==> s[j].id != id)
    } else {
        None
    }
}

/// The severity of an anomaly `deviation_bits` standard deviations out (see `severity_of`).
pub fn severity_for(deviation_bits: u64) -> (s: AnomalySeverity)
    ensures
        s == severity_of(deviation_bits),
{
    if double_less(0x4010_0000_0000_0000, deviation_bits) {
        AnomalySeverity::Critical
    } else if double_less(0x4008_0000_0000_0000, deviation_bits) {
        AnomalySeverity::High
    } else if double_less(0x4000_0000_0000_0000, deviation_bits) {
        AnomalySeverity::Medium
    } else {
        AnomalySeverity::Low
    }
}

// ---------------------------------------------------------------------------
// The learner
// ---------------------------------------------------------------------------

/// Profiles, samples, configurations and anomalies, with the bounds on
/// samples per metric and on anomalies kept.
pub struct BaselineLearner {
    profiles: Store<BaselineProfile>,
    samples: Store<SampleLog>,
    configs: Store<BaselineConfig>,
    anomaly_history: Vec<AnomalyAlert>,
    max_samples: usize,
    max_anomaly_history: usize,
}

impl BaselineLearner {
    /// The profiles by id.
    pub closed spec fn profile_map(&self) -> Map<Seq<char>, ProfileView> {
        self.profiles.map().map_values(|p: BaselineProfile| p@)
    }

    /// The profiles, in the order they are examined.
    pub closed spec fn profile_list(&self) -> Seq<ProfileView> {
        views(self.profiles.items())
    }

    /// The samples by metric name, oldest first.
    pub closed spec fn sample_map(&self) -> Map<Seq<char>, Seq<u64>> {
        self.samples.map().map_values(|l: SampleLog| l.values@)
    }

    /// The samples of metric `m`, oldest first.
    pub open spec fn samples_for(&self, m: MetricType) -> Seq<u64> {
        if self.sample_map().dom().contains(metric_name(m)) { self.sample_map()[metric_name(m)] } else { seq![] }
    }

    /// The configurations by metric name.
    pub closed spec fn config_map(&self) -> Map<Seq<char>, BaselineConfig> {
        self.configs.map()
    }

    /// The anomalies, oldest first.
    pub closed spec fn anomalies(&self) -> Seq<AnomalyView> {
        views(self.anomaly_history@)
    }

    /// How many samples are kept per metric.
    pub closed spec fn sample_limit(&self) -> nat {
        self.max_samples as nat
    }

    /// How many anomalies are kept.
    pub closed spec fn anomaly_limit(&self) -> nat {
        self.max_anomaly_history as nat
    }

    /// Nothing learned yet, keeping up to `max_samples` samples per metric
    /// and `max_anomaly_history` anomalies.
    pub fn new(max_samples: usize, max_anomaly_history: usize) -> (l: BaselineLearner)
        ensures
            l.profile_map() == Map::<Seq<char>, ProfileView>::empty(),
            l.profile_list() == Seq::<ProfileView>::empty(),
            l.sample_map() == Map::<Seq<char>, Seq<u64>>::empty(),
            l.config_map() == Map::<Seq<char>, BaselineConfig>::empty(),
            l.anomalies() == Seq::<AnomalyView>::empty(),
            l.sample_limit() == max_samples,
            l.anomaly_limit() == max_anomaly_history,
    {
        let l = BaselineLearner {
            profiles: Store::new(),
            samples: Store::new(),
            configs: Store::new(),
            anomaly_history: Vec::new(),
            max_samples,
            max_anomaly_history,
        };
        assert(l.profile_map() =~= Map::<Seq<char>, ProfileView>::empty());
        assert(l.profile_list() =~= Seq::<ProfileView>::empty());
        assert(l.sample_map() =~= Map::<Seq<char>, Seq<u64>>::empty());
        assert(l.anomalies() =~= Seq::<AnomalyView>::empty());
        l
    }

    /// Nothing learned yet, keeping up to 10000 samples per metric and 1000 anomalies.
    pub fn with_default() -> (l: BaselineLearner)
        ensures
            l.profile_map() == Map::<Seq<char>, ProfileView>::empty(),
            l.sample_map() == Map::<Seq<char>, Seq<u64>>::empty(),
            l.config_map() == Map::<Seq<char>, BaselineConfig>::empty(),
            l.anomalies() == Seq::<AnomalyView>::empty(),
            l.sample_limit() == 10000,
            l.anomaly_limit() == 1000,
    {
        Self::new(10000, 1000)
    }

    /// How many samples are kept per metric.
    pub fn max_samples(&self) -> (n: usize)
        ensures
            n == self.sample_limit(),
    {
        self.max_samples
    }

    /// How many anomalies are kept.
    pub fn max_anomaly_history(&self) -> (n: usize)
        ensures
            n == self.anomaly_limit(),
    {
        self.max_anomaly_history
    }

    /// Sets the configuration of `config`'s metric.
    pub fn configure(&mut self, config: BaselineConfig)
        ensures
            final(self).config_map() == old(self).config_map().insert(metric_name(config.metric_type), config),
            final(self).sample_map() == old(self).sample_map(),
            final(self).profile_map() == old(self).profile_map(),
            final(self).anomalies() == old(self).anomalies(),
            final(self).sample_limit() == old(self).sample_limit(),
            final(self).anomaly_limit() == old(self).anomaly_limit(),
    {
        self.configs.upsert(config);
    }

    /// The configuration of metric `metric_type`, if any.
    pub fn get_config(&self, metric_type: MetricType) -> (r: Option<BaselineConfig>)
        ensures
            match r {
                Some(c) => self.config_map().dom().contains(metric_name(metric_type)) && c == self.config_map()[metric_name(metric_type)],
                None => !self.config_map().dom().contains(metric_name(metric_type)),
            },
    {
        match self.configs.get(metric_type.as_str()) {
            Some(c) => Some(*c),
            None => None,
        }
    }

    /// Sets the default configurations of CPU usage, memory percentage and TPS.
    pub fn setup_default_configs(&mut self)
        ensures
            final(self).config_map() == old(self).config_map()
                .insert(metric_name(MetricType::CpuUsage), default_config(MetricType::CpuUsage))
                .insert(metric_name(MetricType::MemoryPercent), default_config(MetricType::MemoryPercent))
                .insert(metric_name(MetricType::Tps), default_config(MetricType::Tps)),
            final(self).sample_map() == old(self).sample_map(),
            final(self).profile_map() == old(self).profile_map(),
            final(self).anomalies() == old(self).anomalies(),
            final(self).sample_limit() == old(self).sample_limit(),
            final(self).anomaly_limit() == old(self).anomaly_limit(),
    {
        self.configure(BaselineConfig {
            metric_type: MetricType::CpuUsage, learning_window_secs: 3600, min_samples: 100, auto_update: true,
            update_interval_secs: 300, sensitivity: BaselineSensitivity::Medium, enabled: true,
        });
        self.configure(BaselineConfig {
            metric_type: MetricType::MemoryPercent, learning_window_secs: 3600, min_samples: 100, auto_update: true,
            update_interval_secs: 300, sensitivity: BaselineSensitivity::Medium, enabled: true,
        });
        self.configure(BaselineConfig {
            metric_type: MetricType::Tps, learning_window_secs: 7200, min_samples: 200, auto_update: true,
            update_interval_secs: 600, sensitivity: BaselineSensitivity::High, enabled: true,
        });
    }

    /// Adds sample `value_bits` of metric `metric_type`, dropping the oldest
    /// when the limit is reached.
    pub fn add_sample(&mut self, metric_type: MetricType, value_bits: u64)
        ensures
            final(self).sample_map() == old(self).sample_map().insert(metric_name(metric_type),
                bounded_push(old(self).samples_for(metric_type), value_bits, old(self).sample_limit())),
            final(self).config_map() == old(self).config_map(),
            final(self).profile_map() == old(self).profile_map(),
            final(self).anomalies() == old(self).anomalies(),
            final(self).sample_limit() == old(self).sample_limit(),
            final(self).anomaly_limit() == old(self).anomaly_limit(),
    {
        proof { lemma_store_keys(self.samples); }
        let mut values = match self.samples.remove(metric_type.as_str()) {
            Some(log) => log.values,
            None => Vec::new(),
        };
        let ghost before = values@;
        assert(before == old(self).samples_for(metric_type));
        if values.len() >= self.max_samples && values.len() > 0 {
            values.remove(0);
            assert(values@ =~= before.drop_first());
        }
        values.push(value_bits);
        let ghost after = values@;
        assert(after =~= bounded_push(before, value_bits, old(self).sample_limit()));
        self.samples.upsert(SampleLog { metric_type, values });
        assert(self.sample_map() =~= old(self).sample_map().insert(metric_name(metric_type), after));
    }

    /// Adds each of `values` as a sample of metric `metric_type`, in order.
    pub fn add_samples(&mut self, metric_type: MetricType, values: &[u64])
        ensures
            final(self).samples_for(metric_type) == bounded_push_all(old(self).samples_for(metric_type), values@, old(self).sample_limit()),
            final(self).config_map() == old(self).config_map(),
            final(self).profile_map() == old(self).profile_map(),
            final(self).anomalies() == old(self).anomalies(),
            final(self).sample_limit() == old(self).sample_limit(),
            final(self).anomaly_limit() == old(self).anomaly_limit(),
    {
        let n = values.len();
        let mut i: usize = 0;
        while i < n
            invariant
                n == values@.len(),
                i <= n,
                self.samples_for(metric_type) == bounded_push_all(old(self).samples_for(metric_type), values@.take(i as int), old(self).sample_limit()),
                self.config_map() == old(self).config_map(),
                self.profile_map() == old(self).profile_map(),
                self.anomalies() == old(self).anomalies(),
                self.sample_limit() == old(self).sample_limit(),
                self.anomaly_limit() == old(self).anomaly_limit(),
            decreases n - i,
        {
            proof {
                assert(values@.take(i + 1).drop_last() =~= values@.take(i as int));
                assert(values@.take(i + 1).last() == values@[i as int]);
            }
            self.add_sample(metric_type, values[i]);
            i = i + 1;
        }
        proof { assert(values@.take(n as int) =~= values@); }
    }

    /// Copies of the samples of metric `metric_type`, oldest first.
    pub fn samples_of(&self, metric_type: MetricType) -> (v: Vec<u64>)
        ensures
            v@ == self.samples_for(metric_type),
    {
        proof { lemma_store_keys(self.samples); }
        match self.samples.get(metric_type.as_str()) {
            Some(log) => log.values.clone(),
            None => Vec::new(),
        }
    }

    /// How many samples of metric `metric_type` are kept.
    pub fn get_sample_count(&self, metric_type: MetricType) -> (n: usize)
        ensures
            n == self.samples_for(metric_type).len(),
    {
        match self.samples.get(metric_type.as_str()) {
            Some(log) => log.values.len(),
            None => 0,
        }
    }

    /// Forgets the samples of metric `metric_type`.
    pub fn clear_samples(&mut self, metric_type: MetricType)
        ensures
            final(self).sample_map() == old(self).sample_map().remove(metric_name(metric_type)),
            final(self).config_map() == old(self).config_map(),
            final(self).profile_map() == old(self).profile_map(),
            final(self).anomalies() == old(self).anomalies(),
    {
        let _ = self.samples.remove(metric_type.as_str());
        assert(self.sample_map() =~= old(self).sample_map().remove(metric_name(metric_type)));
    }

    /// Forgets every sample.
    pub fn clear_all_samples(&mut self)
        ensures
            final(self).sample_map() == Map::<Seq<char>, Seq<u64>>::empty(),
            final(self).config_map() == old(self).config_map(),
            final(self).profile_map() == old(self).profile_map(),
            final(self).anomalies() == old(self).anomalies(),
    {
        self.samples.clear();
        assert(self.sample_map() =~= Map::<Seq<char>, Seq<u64>>::empty());
    }

    /// Records a new profile named `name` for metric `metric_type` at `now`
    /// under a fresh id, with no baselines yet; returns a copy.
    pub fn create_profile_at(&mut self, name: &str, metric_type: MetricType, now: u64) -> (p: BaselineProfile)
        ensures
            is_hyphenated_uuid(p@.id),
            p@ == (ProfileView { id: p@.id, name: name@, metric_type, baselines: seq![], time_windows: seq![], created_at: now, updated_at: now }),
            final(self).profile_map() == old(self).profile_map().insert(p@.id, p@),
            final(self).sample_map() == old(self).sample_map(),
            final(self).config_map() == old(self).config_map(),
            final(self).anomalies() == old(self).anomalies(),
    {
        let p = BaselineProfile {
            id: new_uuid_string(),
            name: owned(name),
            metric_type,
            baselines: Vec::new(),
            time_windows: Vec::new(),
            created_at: now,
            updated_at: now,
        };
        assert(views(p.baselines@) =~= Seq::<NamedView>::empty());
        assert(views(p.time_windows@) =~= Seq::<WindowView>::empty());
        let copy = p.dup();
        let ghost pv = p@;
        self.profiles.upsert(p);
        assert(self.profile_map() =~= old(self).profile_map().insert(pv.id, pv));
        copy
    }

    /// Records a new profile now (see `create_profile_at`).
    pub fn create_profile(&mut self, name: &str, metric_type: MetricType) -> (p: BaselineProfile)
        ensures
            is_hyphenated_uuid(p@.id),
            p@.name == name@,
            p@.metric_type == metric_type,
            p@.baselines.len() == 0,
            final(self).profile_map() == old(self).profile_map().insert(p@.id, p@),
    {
        let now = now_millis_unsigned();
        self.create_profile_at(name, metric_type, now)
    }

    /// A copy of profile `id`, if any.
    pub fn get_profile(&self, id: &str) -> (r: Option<BaselineProfile>)
        ensures
            match r {
                Some(p) => self.profile_map().dom().contains(id@) && p@ == self.profile_map()[id@],
                None => !self.profile_map().dom().contains(id@),
            },
    {
        match self.profiles.get(id) {
            Some(p) => Some(p.dup()),
            None => None,
        }
    }

    /// Copies of all profiles.
    pub fn get_all_profiles(&self) -> (v: Vec<BaselineProfile>)
        ensures
            views(v@) == self.profile_list(),
    {
        dup_vec(self.profiles.as_vec())
    }

    /// Forgets profile `id` and returns it, if it was there.
    pub fn delete_profile(&mut self, id: &str) -> (r: Option<BaselineProfile>)
        ensures
            match r {
                Some(p) => old(self).profile_map().dom().contains(id@) && p@ == old(self).profile_map()[id@],
                None => !old(self).profile_map().dom().contains(id@),
            },
            final(self).profile_map() == old(self).profile_map().remove(id@),
            final(self).sample_map() == old(self).sample_map(),
            final(self).config_map() == old(self).config_map(),
            final(self).anomalies() == old(self).anomalies(),
    {
        let r = self.profiles.remove(id);
        assert(self.profile_map() =~= old(self).profile_map().remove(id@));
        r
    }

    /// The metric of profile `profile_id`, or "Profile not found".
    pub fn profile_metric(&self, profile_id: &str) -> (r: Result<MetricType, String>)
        ensures
            match r {
                Ok(m) => self.profile_map().dom().contains(profile_id@) && m == self.profile_map()[profile_id@].metric_type,
                Err(e) => !self.profile_map().dom().contains(profile_id@) && e@ == "Profile not found"@,
            },
    {
        match self.profiles.get(profile_id) {
            Some(p) => Ok(p.metric_type),
            None => Err(owned("Profile not found")),
        }
    }

    /// Sets `baseline` as the "global" baseline of profile `profile_id` at
    /// `now`; an unknown profile is an error.
    pub fn store_global_baseline(&mut self, profile_id: &str, baseline: BaselineMetrics, now: u64) -> (r: Result<BaselineMetrics, String>)
        ensures
            match r {
                Ok(b) => b == baseline && old(self).profile_map().dom().contains(profile_id@)
                    && final(self).profile_map() == old(self).profile_map().insert(profile_id@, ProfileView {
                        baselines: without_named(old(self).profile_map()[profile_id@].baselines, "global"@)
                            .push(NamedView { name: "global"@, metrics: baseline }),
                        updated_at: now,
                        ..old(self).profile_map()[profile_id@]
                    }),
                Err(e) => !old(self).profile_map().dom().contains(profile_id@) && e@ == "Profile not found"@
                    && final(self).profile_map() == old(self).profile_map(),
            },
            final(self).sample_map() == old(self).sample_map(),
            final(self).config_map() == old(self).config_map(),
            final(self).anomalies() == old(self).anomalies(),
    {
        proof { lemma_store_keys(self.profiles); }
        let mut p = match self.profiles.get(profile_id) {
            Some(x) => x.dup(),
            None => return Err(owned("Profile not found")),
        };
        let ghost s = views(p.baselines@);
        let n = p.baselines.len();
        let mut kept: Vec<NamedBaseline> = Vec::new();
        let mut i: usize = 0;
        while i < n
            invariant
                n == p.baselines@.len(),
                s == views(p.baselines@),
                i <= n,
                views(kept@) == without_named(s.take(i as int), "global"@),
            decreases n - i,
        {
            proof {
                assert(s.take(i + 1).drop_last() =~= s.take(i as int));
                assert(s.take(i + 1).last() == p.baselines@[i as int]@);
            }
            if !str_eq(p.baselines[i].name.as_str(), "global") {
                let ghost before = views(kept@);
                kept.push(p.baselines[i].dup());
                assert(views(kept@) =~= before.push(p.baselines@[i as int]@));
            }
            i = i + 1;
        }
        proof { assert(s.take(n as int) =~= s); }
        let ghost k = views(kept@);
        kept.push(NamedBaseline { name: owned("global"), metrics: baseline });
        assert(views(kept@) =~= k.push(NamedView { name: "global"@, metrics: baseline }));
        p.baselines = kept;
        p.updated_at = now;
        let ghost pv = p@;
        self.profiles.upsert(p);
        assert(self.profile_map() =~= old(self).profile_map().insert(profile_id@, pv));
        Ok(baseline)
    }

    /// The id of the first profile for metric `metric_type`, or the empty
    /// text when there is none.
    pub fn baseline_id_for(&self, metric_type: MetricType) -> (id: String)
        ensures
            (exists|i: int| 0 <= i < self.profile_list().len() && #[trigger] self.profile_list()[i].metric_type == metric_type)
                ==> exists|i: int| 0 <= i < self.profile_list().len() && #[trigger] self.profile_list()[i].metric_type == metric_type
                    && self.profile_list()[i].id == id@
                    && forall|j: int| 0 <= j < i ==> self.profile_list()[j].metric_type != metric_type,
            !(exists|i: int| 0 <= i < self.profile_list().len() && #[trigger] self.profile_list()[i].metric_type == metric_type)
                ==> id@ == Seq::<char>::empty(),
    {
        let items = self.profiles.as_vec();
        let ghost s = self.profile_list();
        let n = items.len();
        let mut i: usize = 0;
        while i < n
            invariant
                n == items@.len(),
                s == views(items@),
                s == self.profile_list(),
                i <= n,
                forall|j: int| 0 <= j < i ==> s[j].metric_type != metric_type,
            decreases n - i,
        {
            if items[i].metric_type == metric_type {
                let id = items[i].id.clone();
                assert(s[i as int] == items@[i as int]@);
                assert(s[i as int].metric_type == metric_type);
                assert(s[i as int].id == id@);
                return id;
            }
            i = i + 1;
        }
        String::new()
    }

    /// Records anomaly `anomaly`, dropping the oldest when the limit is reached.
    pub fn record_anomaly(&mut self, anomaly: AnomalyAlert)
        ensures
            final(self).anomalies() == bounded_push(old(self).anomalies(), anomaly@, old(self).anomaly_limit()),
            final(self).sample_map() == old(self).sample_map(),
            final(self).config_map() == old(self).config_map(),
            final(self).profile_map() == old(self).profile_map(),
            final(self).anomaly_limit() == old(self).anomaly_limit(),
            final(self).sample_limit() == old(self).sample_limit(),
    {
        let ghost before = self.anomalies();
        if self.anomaly_history.len() >= self.max_anomaly_history && self.anomaly_history.len() > 0 {
            self.anomaly_history.remove(0);
            assert(self.anomalies() =~= before.drop_first());
        }
        let ghost mid = self.anomalies();
        let ghost av = anomaly@;
        self.anomaly_history.push(anomaly);
        assert(self.anomalies() =~= mid.push(av));
    }

    /// Copies of the newest `limit` anomalies, newest first.
    pub fn get_anomaly_history(&self, limit: usize) -> (v: Vec<AnomalyAlert>)
        ensures
            views(v@) == newest(self.anomalies(), limit as nat),
    {
        newest_dup(&self.anomaly_history, limit)
    }

    /// Copies of the anomalies later than `duration_secs` seconds before
    /// `now` (the cutoff saturating at zero), oldest first.
    pub fn get_recent_anomalies_at(&self, duration_secs: u64, now: u64) -> (v: Vec<AnomalyAlert>)
        ensures
            views(v@) == anomalies_after(self.anomalies(), seconds_before(now, duration_secs)),
    {
        let cutoff = time_seconds_before(now, duration_secs);
        let ghost s = self.anomalies();
        let n = self.anomaly_history.len();
        let mut r: Vec<AnomalyAlert> = Vec::new();
        let mut i: usize = 0;
        while i < n
            invariant
                n == self.anomaly_history@.len(),
                s == views(self.anomaly_history@),
                i <= n,
                views(r@) == anomalies_after(s.take(i as int), cutoff),
            decreases n - i,
        {
            proof {
                assert(s.take(i + 1).drop_last() =~= s.take(i as int));
                assert(s.take(i + 1).last() == self.anomaly_history@[i as int]@);
            }
            if self.anomaly_history[i].timestamp > cutoff {
                let ghost before = views(r@);
                r.push(self.anomaly_history[i].dup());
                assert(views(r@) =~= before.push(self.anomaly_history@[i as int]@));
            }
            i = i + 1;
        }
        proof { assert(s.take(n as int) =~= s); }
        r
    }

    /// Copies of the anomalies of the last `duration_secs` seconds.
    pub fn get_recent_anomalies(&self, duration_secs: u64) -> (v: Vec<AnomalyAlert>)
        ensures
            exists|now: u64| views(v@) == anomalies_after(self.anomalies(), seconds_before(now, duration_secs)),
    {
        let now = now_millis_unsigned();
        self.get_recent_anomalies_at(duration_secs, now)
    }

    /// Marks the first anomaly with id `anomaly_id` acknowledged; an unknown
    /// id is an error.
    pub fn acknowledge_anomaly(&mut self, anomaly_id: &str) -> (r: Result<(), String>)
        ensures
            match first_with_id(old(self).anomalies(), anomaly_id@) {
                Some(i) => r is Ok && final(self).anomalies() == old(self).anomalies().update(i,
                    AnomalyView { acknowledged: true, ..old(self).anomalies()[i] }),
                None => r matches Err(e) && e@ == "Anomaly not found"@ && final(self).anomalies() == old(self).anomalies(),
            },
            final(self).sample_map() == old(self).sample_map(),
            final(self).config_map() == old(self).config_map(),
            final(self).profile_map() == old(self).profile_map(),
    {
        let ghost s = self.anomalies();
        let n = self.anomaly_history.len();
        let mut i: usize = 0;
        while i < n
            invariant
                n == self.anomaly_history@.len(),
                s == views(self.anomaly_history@),
                s == old(self).anomalies(),
                i <= n,
                forall|j: int| 0 <= j < i ==> s[j].id != anomaly_id@,
                self.samples == old(self).samples,
                self.configs == old(self).configs,
                self.profiles == old(self).profiles,
            decreases n - i,
        {
            if str_eq(self.anomaly_history[i].id.as_str(), anomaly_id) {
                proof {
                    assert(s[i as int].id == anomaly_id@);
                    let w = first_with_id(s, anomaly_id@);
                    assert(w is Some);
                    let k = w->0;
                    assert(0 <= k < s.len() && s[k].id == anomaly_id@ && forall|j: int| 0 <= j < k ==> s[j].id != anomaly_id@);
                    if k < i {
                    } else if k > i {
                        assert(s[i as int].id != anomaly_id@);
                    }
                    assert(k == i);
                }
                let mut a = self.anomaly_history[i].dup();
                a.acknowledged = true;
                let ghost av = a@;
                self.anomaly_history.set(i, a);
                assert(self.anomalies() =~= s.update(i as int, av));
                return Ok(());
            }
            i = i + 1;
        }
        proof {
            assert(!(exists|j: int| 0 <= j < s.len() && #[trigger] s[j].id == anomaly_id@));
        }
        Err(owned("Anomaly not found"))
    }
}

// ---------------------------------------------------------------------------
// Laws
// ---------------------------------------------------------------------------

/// However many entries are added, at most the limit (and at least one
/// after an addition) is kept, and the last added is the newest.
pub proof fn law_bounded_history<T>(s: Seq<T>, x: T, max: nat)
    requires
        s.len() <= max,
    ensures
        bounded_push(s, x, max).len() <= max || (max == 0 && bounded_push(s, x, max).len() == 1),
        bounded_push(s, x, max).last() == x,
{
}

/// A higher deviation never gives a lower severity.
pub proof fn law_severity_grows(a: u64, b: u64)
    requires
        !crate::monitor::types::bits_is_nan(a),
        !crate::monitor::types::bits_is_nan(b),
        crate::monitor::types::bits_rank(a) <= crate::monitor::types::bits_rank(b),
    ensures
        severity_of(a) == AnomalySeverity::Critical ==> severity_of(b) == AnomalySeverity::Critical,
        severity_of(a) == AnomalySeverity::High ==> (severity_of(b) == AnomalySeverity::High || severity_of(b) == AnomalySeverity::Critical),
        severity_of(a) == AnomalySeverity::Medium ==> severity_of(b) != AnomalySeverity::Low,
{
}

} // verus!
