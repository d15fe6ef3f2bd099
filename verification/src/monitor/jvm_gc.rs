//! Garbage-collection and heap records of the server's JVM, each kept up to a
//! bound, and queries over recent collections. Pause times are the bit
//! patterns of IEEE doubles; times are milliseconds since the epoch.
use vstd::prelude::*;
use crate::text::owned;
use crate::clock::now_millis_unsigned;
use crate::monitor::types::{GcMetrics, GcView};
use crate::monitor::deadlock::bounded_push;
use crate::monitor::network::{seconds_before, time_seconds_before};
use crate::security::audit_log::newest;
use crate::dup::{Duplicate, views, newest_dup};

verus! {

/// Which process to watch, how often, and how many records to keep.
pub struct JvmGcConfig {
    pub process_name: String,
    pub refresh_interval_secs: u64,
    pub history_size: usize,
}

impl Default for JvmGcConfig {
    fn default() -> (c: JvmGcConfig)
        ensures
            c.process_name@ == "java"@,
            c.refresh_interval_secs == 5,
            c.history_size == 1000,
    {
        JvmGcConfig { process_name: owned("java"), refresh_interval_secs: 5, history_size: 1000 }
    }
}

/// Heap and non-heap memory figures of the JVM at one time.
pub struct JvmHeapStats {
    pub heap_init: u64,
    pub heap_used: u64,
    pub heap_committed: u64,
    pub heap_max: u64,
    pub non_heap_init: u64,
    pub non_heap_used: u64,
    pub non_heap_committed: u64,
    pub timestamp: u64,
}

/// The plain content of heap figures.
pub struct HeapView {
    pub heap_init: u64,
    pub heap_used: u64,
    pub heap_committed: u64,
    pub heap_max: u64,
    pub non_heap_init: u64,
    pub non_heap_used: u64,
    pub non_heap_committed: u64,
    pub timestamp: u64,
}

impl View for JvmHeapStats {
    type V = HeapView;

    open spec fn view(&self) -> HeapView {
        HeapView {
            heap_init: self.heap_init,
            heap_used: self.heap_used,
            heap_committed: self.heap_committed,
            heap_max: self.heap_max,
            non_heap_init: self.non_heap_init,
            non_heap_used: self.non_heap_used,
            non_heap_committed: self.non_heap_committed,
            timestamp: self.timestamp,
        }
    }
}

impl Duplicate for JvmHeapStats {
    fn dup(&self) -> (r: JvmHeapStats) {
        JvmHeapStats {
            heap_init: self.heap_init,
            heap_used: self.heap_used,
            heap_committed: self.heap_committed,
            heap_max: self.heap_max,
            non_heap_init: self.non_heap_init,
            non_heap_used: self.non_heap_used,
            non_heap_committed: self.non_heap_committed,
            timestamp: self.timestamp,
        }
    }
}

/// One memory pool of the JVM.
pub struct JvmMemoryPool {
    pub name: String,
    pub pool_type: String,
    pub initial: u64,
    pub used: u64,
    pub committed: u64,
    pub maximum: u64,
}

/// One thread of the JVM.
pub struct JvmThreadInfo {
    pub thread_id: u64,
    pub thread_name: String,
    pub thread_state: String,
    pub blocked_count: u64,
    pub waited_count: u64,
    pub lock_name: Option<String>,
    pub lock_owner_name: Option<String>,
}

/// One collection as the JVM reports it; pause and duration are doubles' bit
/// patterns in milliseconds.
pub struct JvmGcInfo {
    pub gc_name: String,
    pub gc_cause: String,
    pub gc_action: String,
    pub pause_time_ms_bits: u64,
    pub before_used: u64,
    pub after_used: u64,
    pub before_total: u64,
    pub after_total: u64,
    pub duration_ms_bits: u64,
    pub timestamp: u64,
}

/// What the JVM reports at one time.
pub struct JvmMetrics {
    pub pid: u32,
    pub uptime_secs: u64,
    pub heap: JvmHeapStats,
    pub memory_pools: Vec<JvmMemoryPool>,
    pub thread_count: u32,
    pub peak_thread_count: u32,
    pub daemon_thread_count: u32,
    pub gc_stats: Vec<JvmGcInfo>,
    pub timestamp: u64,
}

/// The collections of `s` later than `cutoff`, in order.
pub open spec fn gcs_after(s: Seq<GcView>, cutoff: u64) -> Seq<GcView>
    decreases s.len(),
{
    if s.len() == 0 {
        seq![]
    } else if s.last().timestamp > cutoff {
        gcs_after(s.drop_last(), cutoff).push(s.last())
    } else {
        gcs_after(s.drop_last(), cutoff)
    }
}

proof fn lemma_gcs_after_len(s: Seq<GcView>, cutoff: u64)
    ensures
        gcs_after(s, cutoff).len() <= s.len(),
    decreases s.len(),
{
    if s.len() > 0 {
        lemma_gcs_after_len(s.drop_last(), cutoff);
    }
}

/// Collection and heap records, each kept up to the configured history size.
pub struct JvmGcMonitor {
    gc_history: Vec<GcMetrics>,
    heap_history: Vec<JvmHeapStats>,
    config: JvmGcConfig,
}

impl JvmGcMonitor {
    /// The recorded collections, oldest first.
    pub closed spec fn gcs(&self) -> Seq<GcView> {
        views(self.gc_history@)
    }

    /// The recorded heap figures, oldest first.
    pub closed spec fn heaps(&self) -> Seq<HeapView> {
        views(self.heap_history@)
    }

    /// How many records of each kind are kept.
    pub closed spec fn bound(&self) -> usize {
        self.config.history_size
    }

    /// The process watched.
    pub closed spec fn process(&self) -> Seq<char> {
        self.config.process_name@
    }

    /// The refresh interval in seconds.
    pub closed spec fn refresh_secs(&self) -> u64 {
        self.config.refresh_interval_secs
    }

    /// No records yet.
    pub fn new(config: JvmGcConfig) -> (m: JvmGcMonitor)
        ensures
            m.gcs() == Seq::<GcView>::empty(),
            m.heaps() == Seq::<HeapView>::empty(),
            m.bound() == config.history_size,
            m.process() == config.process_name@,
            m.refresh_secs() == config.refresh_interval_secs,
    {
        let m = JvmGcMonitor { gc_history: Vec::new(), heap_history: Vec::new(), config };
        assert(m.gcs() =~= Seq::<GcView>::empty());
        assert(m.heaps() =~= Seq::<HeapView>::empty());
        m
    }

    /// No records yet; watches "java" every five seconds, keeping a thousand records.
    pub fn with_default_config() -> (m: JvmGcMonitor)
        ensures
            m.gcs() == Seq::<GcView>::empty(),
            m.heaps() == Seq::<HeapView>::empty(),
            m.bound() == 1000,
            m.process() == "java"@,
            m.refresh_secs() == 5,
    {
        JvmGcMonitor::new(JvmGcConfig::default())
    }

    /// The configuration.
    pub fn config(&self) -> (c: &JvmGcConfig)
        ensures
            c.process_name@ == self.process(),
            c.refresh_interval_secs == self.refresh_secs(),
            c.history_size == self.bound(),
    {
        &self.config
    }

    /// Appends a collection record, the oldest making way at the bound.
    pub fn record_gc_event(&mut self, gc_metrics: GcMetrics)
        ensures
            final(self).gcs() == bounded_push(old(self).gcs(), old(self).bound(), gc_metrics@),
            final(self).heaps() == old(self).heaps(),
            final(self).bound() == old(self).bound(),
            final(self).process() == old(self).process(),
            final(self).refresh_secs() == old(self).refresh_secs(),
    {
        let ghost before = self.gcs();
        let ghost gv = gc_metrics@;
        if self.gc_history.len() >= self.config.history_size && self.gc_history.len() > 0 {
            let _ = self.gc_history.remove(0);
            assert(views(self.gc_history@) =~= before.drop_first());
        }
        let ghost mid = views(self.gc_history@);
        self.gc_history.push(gc_metrics);
        assert(self.gcs() =~= mid.push(gv));
    }

    /// Appends heap figures, the oldest making way at the bound.
    pub fn record_heap_snapshot(&mut self, heap_stats: JvmHeapStats)
        ensures
            final(self).heaps() == bounded_push(old(self).heaps(), old(self).bound(), heap_stats@),
            final(self).gcs() == old(self).gcs(),
            final(self).bound() == old(self).bound(),
            final(self).process() == old(self).process(),
            final(self).refresh_secs() == old(self).refresh_secs(),
    {
        let ghost before = self.heaps();
        let ghost hv = heap_stats@;
        if self.heap_history.len() >= self.config.history_size && self.heap_history.len() > 0 {
            let _ = self.heap_history.remove(0);
            assert(views(self.heap_history@) =~= before.drop_first());
        }
        let ghost mid = views(self.heap_history@);
        self.heap_history.push(heap_stats);
        assert(self.heaps() =~= mid.push(hv));
    }

    /// Copies of the newest `limit` collection records, newest first.
    pub fn get_gc_history(&self, limit: usize) -> (r: Vec<GcMetrics>)
        ensures
            views(r@) == newest(self.gcs(), limit as nat),
    {
        newest_dup(&self.gc_history, limit)
    }

    /// Copies of the newest `limit` heap records, newest first.
    pub fn get_heap_history(&self, limit: usize) -> (r: Vec<JvmHeapStats>)
        ensures
            views(r@) == newest(self.heaps(), limit as nat),
    {
        newest_dup(&self.heap_history, limit)
    }

    /// Copies of the collections of the last `duration_secs` seconds before
    /// `now` (strictly later than that cutoff), oldest first.
    pub fn recent_gc_events_at(&self, duration_secs: u64, now: u64) -> (r: Vec<GcMetrics>)
        ensures
            views(r@) == gcs_after(self.gcs(), seconds_before(now, duration_secs)),
    {
        let cutoff = time_seconds_before(now, duration_secs);
        let ghost s = self.gcs();
        let n = self.gc_history.len();
        let mut r: Vec<GcMetrics> = Vec::new();
        let mut i: usize = 0;
        while i < n
            invariant
                n == self.gc_history@.len(),
                s == self.gcs(),
                i <= n,
                views(r@) == gcs_after(s.subrange(0, i as int), cutoff),
            decreases n - i,
        {
            assert(s.subrange(0, i + 1).drop_last() =~= s.subrange(0, i as int));
            if self.gc_history[i].timestamp > cutoff {
                let ghost before = views(r@);
                r.push(self.gc_history[i].dup());
                assert(views(r@) =~= before.push(s[i as int]));
            }
            i = i + 1;
        }
        assert(s.subrange(0, n as int) =~= s);
        r
    }

    /// How many collections happened in the last `duration_secs` seconds before `now`.
    pub fn get_gc_count_at(&self, duration_secs: u64, now: u64) -> (n: usize)
        ensures
            n == gcs_after(self.gcs(), seconds_before(now, duration_secs)).len(),
    {
        let cutoff = time_seconds_before(now, duration_secs);
        let ghost s = self.gcs();
        let len = self.gc_history.len();
        let mut count: usize = 0;
        let mut i: usize = 0;
        while i < len
            invariant
                len == self.gc_history@.len(),
                s == self.gcs(),
                i <= len,
                count == gcs_after(s.subrange(0, i as int), cutoff).len(),
            decreases len - i,
        {
            assert(s.subrange(0, i + 1).drop_last() =~= s.subrange(0, i as int));
            proof { lemma_gcs_after_len(s.subrange(0, i as int), cutoff); }
            if self.gc_history[i].timestamp > cutoff {
                count = count + 1;
            }
            i = i + 1;
        }
        assert(s.subrange(0, len as int) =~= s);
        count
    }

    /// `get_gc_count_at` at the current time.
    pub fn get_gc_count(&self, duration_secs: u64) -> (n: usize)
        ensures
            exists|now: u64| n == gcs_after(self.gcs(), seconds_before(now, duration_secs)).len(),
    {
        self.get_gc_count_at(duration_secs, now_millis_unsigned())
    }

    /// Records a collection of kind `gc_type` happening now and returns it.
    pub fn simulate_gc_event(&mut self, gc_type: &str, pause_ms_bits: u64, before_heap: u64, after_heap: u64) -> (g: GcMetrics)
        ensures
            g@.gc_type == gc_type@,
            g@.pause_ms_bits == pause_ms_bits,
            g@.before_heap == before_heap,
            g@.after_heap == after_heap,
            final(self).gcs() == bounded_push(old(self).gcs(), old(self).bound(), g@),
            final(self).heaps() == old(self).heaps(),
            final(self).bound() == old(self).bound(),
    {
        let g = GcMetrics {
            gc_type: owned(gc_type),
            pause_ms_bits,
            before_heap,
            after_heap,
            timestamp: now_millis_unsigned(),
        };
        self.record_gc_event(g.dup());
        g
    }
}

/// Collections counted over a window are those recorded within it: a
/// collection just recorded at `now` is counted in any window ending at `now`
/// that reaches back at least one second.
pub proof fn law_new_collection_is_counted(m1: JvmGcMonitor, m2: JvmGcMonitor, g: GcView, now: u64, secs: u64)
    requires
        m2.gcs() == bounded_push(m1.gcs(), m1.bound(), g),
        g.timestamp == now,
        secs >= 1,
        now >= 1,
    ensures
        gcs_after(m2.gcs(), seconds_before(now, secs)).len() >= 1,
        gcs_after(m2.gcs(), seconds_before(now, secs)).last() == g,
{
    let t = if m1.gcs().len() >= m1.bound() && m1.gcs().len() > 0 { m1.gcs().drop_first() } else { m1.gcs() };
    assert(m2.gcs().drop_last() =~= t);
    assert(seconds_before(now, secs) < now);
}

} // verus!
