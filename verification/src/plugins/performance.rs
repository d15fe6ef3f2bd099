//! The performance samples kept of each plugin: the most recent thousand
//! per plugin and a baseline per plugin. Memory, CPU and tick figures are
//! carried as IEEE double bit patterns; the statistics over them are the
//! owner's. Times are milliseconds.
use vstd::prelude::*;
use crate::keyed::{Keyed, Store, lemma_store_keys};
use crate::text::owned;
use crate::dup::{Duplicate, views, dup_vec};

verus! {

/// One performance sample of a plugin.
pub struct PerformanceMetrics {
    pub plugin_id: String,
    pub timestamp: u64,
    pub memory_mb_bits: u64,
    pub cpu_percent_bits: u64,
    pub tick_time_ms_bits: u64,
    pub commands_count: i32,
    pub events_count: i64,
}

/// The plain content of a sample.
pub struct MetricsView {
    pub plugin_id: Seq<char>,
    pub timestamp: u64,
    pub memory_mb_bits: u64,
    pub cpu_percent_bits: u64,
    pub tick_time_ms_bits: u64,
    pub commands_count: i32,
    pub events_count: i64,
}

impl View for PerformanceMetrics {
    type V = MetricsView;

    open spec fn view(&self) -> MetricsView {
        MetricsView {
            plugin_id: self.plugin_id@,
            timestamp: self.timestamp,
            memory_mb_bits: self.memory_mb_bits,
            cpu_percent_bits: self.cpu_percent_bits,
            tick_time_ms_bits: self.tick_time_ms_bits,
            commands_count: self.commands_count,
            events_count: self.events_count,
        }
    }
}

impl Duplicate for PerformanceMetrics {
    fn dup(&self) -> (r: PerformanceMetrics) {
        PerformanceMetrics {
            plugin_id: self.plugin_id.clone(),
            timestamp: self.timestamp,
            memory_mb_bits: self.memory_mb_bits,
            cpu_percent_bits: self.cpu_percent_bits,
            tick_time_ms_bits: self.tick_time_ms_bits,
            commands_count: self.commands_count,
            events_count: self.events_count,
        }
    }
}

/// The samples of one plugin, oldest first.
pub struct MetricsLog {
    pub plugin_id: String,
    pub samples: Vec<PerformanceMetrics>,
}

impl Keyed for MetricsLog {
    open spec fn key_view(&self) -> Seq<char> {
        self.plugin_id@
    }

    fn key_str(&self) -> (r: &str) {
        self.plugin_id.as_str()
    }
}

/// The baseline sample of one plugin.
pub struct Baseline {
    pub plugin_id: String,
    pub metrics: PerformanceMetrics,
}

impl Keyed for Baseline {
    open spec fn key_view(&self) -> Seq<char> {
        self.plugin_id@
    }

    fn key_str(&self) -> (r: &str) {
        self.plugin_id.as_str()
    }
}

/// How many samples are kept per plugin.
pub const MAX_SAMPLES: usize = 1000;

/// The samples `s` after adding `m`: the oldest is dropped when more than
/// the limit would be kept.
pub open spec fn with_sample(s: Seq<MetricsView>, m: MetricsView) -> Seq<MetricsView> {
    if s.len() + 1 > MAX_SAMPLES { s.push(m).drop_first() } else { s.push(m) }
}

/// For each entry of `s` with samples, its plugin and latest sample, in order.
pub open spec fn latest_entries(s: Seq<(Seq<char>, Seq<MetricsView>)>) -> Seq<(Seq<char>, MetricsView)>
    decreases s.len(),
{
    if s.len() == 0 {
        seq![]
    } else if s.last().1.len() > 0 {
        latest_entries(s.drop_last()).push((s.last().0, s.last().1.last()))
    } else {
        latest_entries(s.drop_last())
    }
}

/// The plain content of (plugin id, sample) pairs.
pub open spec fn entry_views(v: Seq<(String, PerformanceMetrics)>) -> Seq<(Seq<char>, MetricsView)> {
    v.map_values(|p: (String, PerformanceMetrics)| (p.0@, p.1@))
}

proof fn lemma_latest_entries(l: Seq<(Seq<char>, Seq<MetricsView>)>)
    ensures
        latest_entries(l).len() <= l.len(),
        forall|j: int| 0 <= j < latest_entries(l).len() ==> exists|i: int| 0 <= i < l.len() && l[i].1.len() > 0
            && #[trigger] latest_entries(l)[j] == (l[i].0, l[i].1.last()),
    decreases l.len(),
{
    if l.len() > 0 {
        let p = l.drop_last();
        lemma_latest_entries(p);
        assert forall|j: int| 0 <= j < latest_entries(l).len() implies exists|i: int| 0 <= i < l.len() && l[i].1.len() > 0
            && #[trigger] latest_entries(l)[j] == (l[i].0, l[i].1.last()) by {
            if j < latest_entries(p).len() {
                let i = choose|i: int| 0 <= i < p.len() && p[i].1.len() > 0 && #[trigger] latest_entries(p)[j] == (p[i].0, p[i].1.last());
                assert(l[i] == p[i]);
                assert(latest_entries(l)[j] == latest_entries(p)[j]);
            } else {
                assert(l[l.len() - 1] == l.last());
            }
        }
    }
}

/// The samples and baselines of the plugins.
pub struct PerformanceAnalyzer {
    metrics_history: Store<MetricsLog>,
    baseline_metrics: Store<Baseline>,
}

impl PerformanceAnalyzer {
    /// The samples by plugin id, oldest first.
    pub closed spec fn history(&self) -> Map<Seq<char>, Seq<MetricsView>> {
        self.metrics_history.map().map_values(|l: MetricsLog| views(l.samples@))
    }

    /// Each plugin with samples and its samples (oldest first), in the order
    /// they are examined.
    pub closed spec fn logs(&self) -> Seq<(Seq<char>, Seq<MetricsView>)> {
        self.metrics_history.items().map_values(|l: MetricsLog| (l.plugin_id@, views(l.samples@)))
    }

    /// The baseline by plugin id.
    pub closed spec fn baselines(&self) -> Map<Seq<char>, MetricsView> {
        self.baseline_metrics.map().map_values(|b: Baseline| b.metrics@)
    }

    /// No samples and no baselines.
    pub fn new() -> (a: PerformanceAnalyzer)
        ensures
            a.history() == Map::<Seq<char>, Seq<MetricsView>>::empty(),
            a.baselines() == Map::<Seq<char>, MetricsView>::empty(),
    {
        let a = PerformanceAnalyzer { metrics_history: Store::new(), baseline_metrics: Store::new() };
        assert(a.history() =~= Map::<Seq<char>, Seq<MetricsView>>::empty());
        assert(a.baselines() =~= Map::<Seq<char>, MetricsView>::empty());
        a
    }

    /// Adds sample `metrics` to the samples of its plugin, dropping that
    /// plugin's oldest sample when more than a thousand would be kept.
    pub fn record_metrics(&mut self, metrics: PerformanceMetrics)
        ensures
            final(self).history() == old(self).history().insert(metrics@.plugin_id,
                with_sample(if old(self).history().dom().contains(metrics@.plugin_id) { old(self).history()[metrics@.plugin_id] } else { seq![] }, metrics@)),
            final(self).baselines() == old(self).baselines(),
    {
        let ghost mv = metrics@;
        proof { lemma_store_keys(self.metrics_history); }
        let mut samples = match self.metrics_history.remove(metrics.plugin_id.as_str()) {
            Some(log) => log.samples,
            None => Vec::new(),
        };
        let ghost before = views(samples@);
        assert(before == (if old(self).history().dom().contains(mv.plugin_id) { old(self).history()[mv.plugin_id] } else { seq![] }));
        let key = metrics.plugin_id.clone();
        samples.push(metrics);
        assert(views(samples@) =~= before.push(mv));
        if samples.len() > MAX_SAMPLES {
            samples.remove(0);
            assert(views(samples@) =~= before.push(mv).drop_first());
        }
        let ghost after = views(samples@);
        self.metrics_history.upsert(MetricsLog { plugin_id: key, samples });
        assert(self.history() =~= old(self).history().insert(mv.plugin_id, after));
    }

    /// Copies of the samples of plugin `plugin_id`, oldest first (none for
    /// an unknown plugin).
    pub fn metrics_of(&self, plugin_id: &str) -> (v: Vec<PerformanceMetrics>)
        ensures
            views(v@) == (if self.history().dom().contains(plugin_id@) { self.history()[plugin_id@] } else { seq![] }),
    {
        match self.metrics_history.get(plugin_id) {
            Some(log) => dup_vec(&log.samples),
            None => {
                let v: Vec<PerformanceMetrics> = Vec::new();
                assert(views(v@) =~= Seq::<MetricsView>::empty());
                v
            }
        }
    }

    /// Sets `metrics` as the baseline of plugin `plugin_id`.
    pub fn set_baseline(&mut self, plugin_id: &str, metrics: PerformanceMetrics)
        ensures
            final(self).baselines() == old(self).baselines().insert(plugin_id@, metrics@),
            final(self).history() == old(self).history(),
    {
        let ghost mv = metrics@;
        self.baseline_metrics.upsert(Baseline { plugin_id: owned(plugin_id), metrics });
        assert(self.baselines() =~= old(self).baselines().insert(plugin_id@, mv));
    }

    /// A copy of the baseline of plugin `plugin_id`, if any.
    pub fn baseline_of(&self, plugin_id: &str) -> (r: Option<PerformanceMetrics>)
        ensures
            match r {
                Some(m) => self.baselines().dom().contains(plugin_id@) && m@ == self.baselines()[plugin_id@],
                None => !self.baselines().dom().contains(plugin_id@),
            },
    {
        match self.baseline_metrics.get(plugin_id) {
            Some(b) => Some(b.metrics.dup()),
            None => None,
        }
    }

    /// Forgets the samples of plugin `plugin_id`.
    pub fn clear_history(&mut self, plugin_id: &str)
        ensures
            final(self).history() == old(self).history().remove(plugin_id@),
            final(self).baselines() == old(self).baselines(),
    {
        let _ = self.metrics_history.remove(plugin_id);
        assert(self.history() =~= old(self).history().remove(plugin_id@));
    }

    /// The ids of the plugins with samples, with copies of their latest sample.
    pub fn latest_samples(&self) -> (v: Vec<(String, PerformanceMetrics)>)
        ensures
            entry_views(v@) == latest_entries(self.logs()),
            self.logs().len() == self.history().len(),
            forall|i: int| 0 <= i < self.logs().len() ==> #[trigger] self.history().dom().contains(self.logs()[i].0)
                && self.history()[self.logs()[i].0] == self.logs()[i].1,
            forall|k: Seq<char>| #[trigger] self.history().dom().contains(k) ==> exists|i: int| 0 <= i < self.logs().len() && self.logs()[i].0 == k,
            v@.len() <= self.history().len(),
            forall|i: int| 0 <= i < v@.len() ==> #[trigger] self.history().dom().contains(v@[i].0@)
                && self.history()[v@[i].0@].len() > 0
                && v@[i].1@ == self.history()[v@[i].0@].last(),
    {
        self.metrics_history.facts();
        let items = self.metrics_history.as_vec();
        let n = items.len();
        let mut v: Vec<(String, PerformanceMetrics)> = Vec::new();
        let mut i: usize = 0;
        while i < n
            invariant
                n == items@.len(),
                items@ == self.metrics_history.items(),
                i <= n,
                entry_views(v@) == latest_entries(self.logs().take(i as int)),
            decreases n - i,
        {
            self.metrics_history.facts();
            let log = &items[i];
            let m = log.samples.len();
            proof {
                let l = self.logs();
                assert(l.take(i + 1).drop_last() =~= l.take(i as int));
                assert(l.take(i + 1).last() == (items@[i as int].plugin_id@, views(items@[i as int].samples@)));
            }
            let ghost before = entry_views(v@);
            if m > 0 {
                let last = log.samples[m - 1].dup();
                assert(views(log.samples@).last() == log.samples@[m - 1]@);
                let id = log.plugin_id.clone();
                let ghost e = (id@, last@);
                v.push((id, last));
                assert(entry_views(v@) =~= before.push(e));
            } else {
                assert(entry_views(v@) == before);
            }
            i = i + 1;
        }
        proof {
            assert(self.logs().take(n as int) =~= self.logs());
            assert(self.history().dom() =~= self.metrics_history.map().dom());
            let l = self.logs();
            let items = self.metrics_history.items();
            assert forall|i: int| 0 <= i < l.len() implies #[trigger] self.history().dom().contains(l[i].0)
                && self.history()[l[i].0] == l[i].1 by {
                assert(l[i] == (items[i].plugin_id@, views(items[i].samples@)));
                assert(self.metrics_history.map().dom().contains(items[i].key_view()));
                assert(self.metrics_history.map()[items[i].key_view()] == items[i]);
            }
            lemma_latest_entries(l);
            assert(l.len() == items.len());
            crate::keyed::lemma_map_of_len(items);
            assert forall|j: int| 0 <= j < v@.len() implies #[trigger] self.history().dom().contains(v@[j].0@)
                && self.history()[v@[j].0@].len() > 0
                && v@[j].1@ == self.history()[v@[j].0@].last() by {
                assert(entry_views(v@)[j] == (v@[j].0@, v@[j].1@));
                let i = choose|i: int| 0 <= i < l.len() && l[i].1.len() > 0 && #[trigger] latest_entries(l)[j] == (l[i].0, l[i].1.last());
                assert(self.history()[l[i].0] == l[i].1);
            }
            assert forall|k: Seq<char>| #[trigger] self.history().dom().contains(k) implies exists|i: int| 0 <= i < l.len() && l[i].0 == k by {
                assert(self.metrics_history.map().dom().contains(k));
                assert(crate::keyed::has_key(items, k));
                let i = choose|i: int| 0 <= i < items.len() && #[trigger] items[i].key_view() == k;
                assert(l[i].0 == k);
            }
        }
        v
    }
}

// ---------------------------------------------------------------------------
// Laws
// ---------------------------------------------------------------------------

/// Adding a sample never leaves more than a thousand, and the newest sample
/// is always the one just added.
pub proof fn law_samples_bounded(s: Seq<MetricsView>, m: MetricsView)
    requires
        s.len() <= MAX_SAMPLES,
    ensures
        with_sample(s, m).len() <= MAX_SAMPLES,
        with_sample(s, m).last() == m,
{
}

} // verus!
