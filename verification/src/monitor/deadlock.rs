//! Thread-state monitoring: snapshots of the server process's threads, reports
//! of suspiciously many blocked or waiting threads, and a bounded history.
//! Reading the process table is the caller's part; it hands over a sample.
use vstd::prelude::*;
use crate::text::{owned, str_eq, concat, to_lowercase, lowercase, decimal, u64_to_decimal, copy_strings, copy_vec, strings_view};
use crate::ids::{new_uuid_string, is_hyphenated_uuid};
use crate::clock::now_millis_unsigned;
use crate::security::audit_log::newest;

verus! {

/// How many blocked threads are tolerated before a report.
pub const MAX_BLOCKED_THRESHOLD: usize = 10;

/// The scheduling state of a thread.
#[derive(Clone, Copy, PartialEq, Eq, Structural, Debug)]
pub enum ThreadState {
    New,
    Runnable,
    Blocked,
    Waiting,
    TimedWaiting,
    Terminated,
    Unknown,
}

/// The state named by lower-case text `t`.
pub open spec fn state_named(t: Seq<char>) -> ThreadState {
    if t == "new"@ {
        ThreadState::New
    } else if t == "runnable"@ {
        ThreadState::Runnable
    } else if t == "blocked"@ {
        ThreadState::Blocked
    } else if t == "waiting"@ {
        ThreadState::Waiting
    } else if t == "timed waiting"@ || t == "timed_waiting"@ {
        ThreadState::TimedWaiting
    } else if t == "terminated"@ {
        ThreadState::Terminated
    } else {
        ThreadState::Unknown
    }
}

impl ThreadState {
    /// The state named by already lower-cased text.
    pub fn from_lowercase(t: &str) -> (s: ThreadState)
        ensures
            s == state_named(t@),
    {
        if str_eq(t, "new") {
            ThreadState::New
        } else if str_eq(t, "runnable") {
            ThreadState::Runnable
        } else if str_eq(t, "blocked") {
            ThreadState::Blocked
        } else if str_eq(t, "waiting") {
            ThreadState::Waiting
        } else if str_eq(t, "timed waiting") || str_eq(t, "timed_waiting") {
            ThreadState::TimedWaiting
        } else if str_eq(t, "terminated") {
            ThreadState::Terminated
        } else {
            ThreadState::Unknown
        }
    }
}

impl<'a> From<&'a str> for ThreadState {
    /// The state named by `s`, in any letter case; `Unknown` for other text.
    fn from(s: &'a str) -> (r: ThreadState)
        ensures
            r == state_named(lowercase(s@)),
    {
        let t = to_lowercase(s);
        ThreadState::from_lowercase(t.as_str())
    }
}

impl<'a> vstd::std_specs::convert::FromSpecImpl<&'a str> for ThreadState {
    open spec fn obeys_from_spec() -> bool {
        true
    }

    open spec fn from_spec(s: &'a str) -> ThreadState {
        state_named(lowercase(s@))
    }
}

/// One thread of the monitored process; `cpu_usage_bits` is the CPU share as an
/// IEEE single bit pattern.
pub struct ThreadInfo {
    pub thread_id: u64,
    pub thread_name: String,
    pub state: ThreadState,
    pub cpu_usage_bits: u32,
    pub memory_usage: u64,
    pub stack_trace: Vec<String>,
}

/// The plain content of a thread record.
pub struct ThreadInfoView {
    pub thread_id: u64,
    pub thread_name: Seq<char>,
    pub state: ThreadState,
    pub cpu_usage_bits: u32,
    pub memory_usage: u64,
    pub stack_trace: Seq<Seq<char>>,
}

impl View for ThreadInfo {
    type V = ThreadInfoView;

    open spec fn view(&self) -> ThreadInfoView {
        ThreadInfoView {
            thread_id: self.thread_id,
            thread_name: self.thread_name@,
            state: self.state,
            cpu_usage_bits: self.cpu_usage_bits,
            memory_usage: self.memory_usage,
            stack_trace: strings_view(self.stack_trace@),
        }
    }
}

impl ThreadInfo {
    /// A field-by-field copy.
    pub fn duplicate(&self) -> (r: ThreadInfo)
        ensures
            r@ == self@,
    {
        ThreadInfo {
            thread_id: self.thread_id,
            thread_name: self.thread_name.clone(),
            state: self.state,
            cpu_usage_bits: self.cpu_usage_bits,
            memory_usage: self.memory_usage,
            stack_trace: copy_strings(&self.stack_trace),
        }
    }
}

/// A lock and the threads around it.
pub struct LockInfo {
    pub lock_id: String,
    pub lock_class: String,
    pub owner_thread_id: Option<u64>,
    pub blocked_threads: Vec<u64>,
    pub lock_depth: u32,
}

/// How serious a suspected deadlock is.
#[derive(Clone, Copy, PartialEq, Eq, Structural, Debug)]
pub enum DeadlockSeverity {
    Low,
    Medium,
    High,
    Critical,
}

/// A thread taking part in a suspected deadlock.
pub struct DeadlockedThread {
    pub thread_id: u64,
    pub thread_name: String,
    pub blocked_on_lock: String,
    pub holding_locks: Vec<String>,
}

/// The plain content of a deadlocked-thread record.
pub struct DeadlockedThreadView {
    pub thread_id: u64,
    pub thread_name: Seq<char>,
    pub blocked_on_lock: Seq<char>,
    pub holding_locks: Seq<Seq<char>>,
}

impl View for DeadlockedThread {
    type V = DeadlockedThreadView;

    open spec fn view(&self) -> DeadlockedThreadView {
        DeadlockedThreadView {
            thread_id: self.thread_id,
            thread_name: self.thread_name@,
            blocked_on_lock: self.blocked_on_lock@,
            holding_locks: strings_view(self.holding_locks@),
        }
    }
}

impl DeadlockedThread {
    /// A field-by-field copy.
    pub fn duplicate(&self) -> (r: DeadlockedThread)
        ensures
            r@ == self@,
    {
        DeadlockedThread {
            thread_id: self.thread_id,
            thread_name: self.thread_name.clone(),
            blocked_on_lock: self.blocked_on_lock.clone(),
            holding_locks: copy_strings(&self.holding_locks),
        }
    }
}

/// A suspected deadlock; the detection time is in milliseconds.
pub struct DeadlockInfo {
    pub deadlock_id: String,
    pub involved_threads: Vec<DeadlockedThread>,
    pub cycle_description: String,
    pub detected_at: u64,
    pub severity: DeadlockSeverity,
}

/// The plain content of a deadlock record.
pub struct DeadlockInfoView {
    pub deadlock_id: Seq<char>,
    pub involved_threads: Seq<DeadlockedThreadView>,
    pub cycle_description: Seq<char>,
    pub detected_at: u64,
    pub severity: DeadlockSeverity,
}

impl View for DeadlockInfo {
    type V = DeadlockInfoView;

    open spec fn view(&self) -> DeadlockInfoView {
        DeadlockInfoView {
            deadlock_id: self.deadlock_id@,
            involved_threads: self.involved_threads@.map_values(|t: DeadlockedThread| t@),
            cycle_description: self.cycle_description@,
            detected_at: self.detected_at,
            severity: self.severity,
        }
    }
}

impl DeadlockInfo {
    /// A field-by-field copy.
    pub fn duplicate(&self) -> (r: DeadlockInfo)
        ensures
            r@ == self@,
    {
        let n = self.involved_threads.len();
        let mut v: Vec<DeadlockedThread> = Vec::new();
        let mut i: usize = 0;
        while i < n
            invariant
                n == self.involved_threads@.len(),
                i <= n,
                v@.map_values(|t: DeadlockedThread| t@) == self.involved_threads@.map_values(|t: DeadlockedThread| t@).subrange(0, i as int),
            decreases n - i,
        {
            let ghost before = v@.map_values(|t: DeadlockedThread| t@);
            v.push(self.involved_threads[i].duplicate());
            assert(v@.map_values(|t: DeadlockedThread| t@) =~= before.push(self.involved_threads@[i as int]@));
            i = i + 1;
            assert(v@.map_values(|t: DeadlockedThread| t@) =~= self.involved_threads@.map_values(|t: DeadlockedThread| t@).subrange(0, i as int));
        }
        assert(self.involved_threads@.map_values(|t: DeadlockedThread| t@).subrange(0, n as int)
            =~= self.involved_threads@.map_values(|t: DeadlockedThread| t@));
        DeadlockInfo {
            deadlock_id: self.deadlock_id.clone(),
            involved_threads: v,
            cycle_description: self.cycle_description.clone(),
            detected_at: self.detected_at,
            severity: self.severity,
        }
    }
}

/// The threads of the process at one moment, with counts and suspected deadlocks.
pub struct ThreadSnapshot {
    pub threads: Vec<ThreadInfo>,
    pub total_count: usize,
    pub blocked_count: usize,
    pub waiting_count: usize,
    pub deadlocks: Vec<DeadlockInfo>,
    pub timestamp: u64,
}

/// The plain content of a snapshot.
pub struct SnapshotView {
    pub threads: Seq<ThreadInfoView>,
    pub total_count: usize,
    pub blocked_count: usize,
    pub waiting_count: usize,
    pub deadlocks: Seq<DeadlockInfoView>,
    pub timestamp: u64,
}

/// The plain content of each deadlock record.
pub open spec fn deadlocks_view(v: Seq<DeadlockInfo>) -> Seq<DeadlockInfoView> {
    v.map_values(|d: DeadlockInfo| d@)
}

/// The plain content of each thread record.
pub open spec fn threads_view(v: Seq<ThreadInfo>) -> Seq<ThreadInfoView> {
    v.map_values(|t: ThreadInfo| t@)
}

impl View for ThreadSnapshot {
    type V = SnapshotView;

    open spec fn view(&self) -> SnapshotView {
        SnapshotView {
            threads: threads_view(self.threads@),
            total_count: self.total_count,
            blocked_count: self.blocked_count,
            waiting_count: self.waiting_count,
            deadlocks: deadlocks_view(self.deadlocks@),
            timestamp: self.timestamp,
        }
    }
}

fn copy_deadlocks(v: &Vec<DeadlockInfo>) -> (r: Vec<DeadlockInfo>)
    ensures
        deadlocks_view(r@) == deadlocks_view(v@),
{
    let n = v.len();
    let mut r: Vec<DeadlockInfo> = Vec::new();
    let mut i: usize = 0;
    while i < n
        invariant
            n == v@.len(),
            i <= n,
            deadlocks_view(r@) == deadlocks_view(v@).subrange(0, i as int),
        decreases n - i,
    {
        let ghost before = deadlocks_view(r@);
        r.push(v[i].duplicate());
        assert(deadlocks_view(r@) =~= before.push(v@[i as int]@));
        i = i + 1;
        assert(deadlocks_view(r@) =~= deadlocks_view(v@).subrange(0, i as int));
    }
    assert(deadlocks_view(v@).subrange(0, n as int) =~= deadlocks_view(v@));
    r
}

fn copy_threads(v: &Vec<ThreadInfo>) -> (r: Vec<ThreadInfo>)
    ensures
        threads_view(r@) == threads_view(v@),
{
    let n = v.len();
    let mut r: Vec<ThreadInfo> = Vec::new();
    let mut i: usize = 0;
    while i < n
        invariant
            n == v@.len(),
            i <= n,
            threads_view(r@) == threads_view(v@).subrange(0, i as int),
        decreases n - i,
    {
        let ghost before = threads_view(r@);
        r.push(v[i].duplicate());
        assert(threads_view(r@) =~= before.push(v@[i as int]@));
        i = i + 1;
        assert(threads_view(r@) =~= threads_view(v@).subrange(0, i as int));
    }
    assert(threads_view(v@).subrange(0, n as int) =~= threads_view(v@));
    r
}

impl ThreadSnapshot {
    /// A field-by-field copy.
    pub fn duplicate(&self) -> (r: ThreadSnapshot)
        ensures
            r@ == self@,
    {
        ThreadSnapshot {
            threads: copy_threads(&self.threads),
            total_count: self.total_count,
            blocked_count: self.blocked_count,
            waiting_count: self.waiting_count,
            deadlocks: copy_deadlocks(&self.deadlocks),
            timestamp: self.timestamp,
        }
    }
}

/// What is known of one thread from the latest snapshot.
pub struct ThreadAnalysis {
    pub thread_id: u64,
    pub thread_name: String,
    pub wait_time_ms: u64,
    pub block_time_ms: u64,
    pub context_switches: u64,
    pub is_blocked: bool,
    pub is_waiting: bool,
    pub is_deadlocked: bool,
}

/// What the caller read of the monitored process: its id, name, status text
/// (as the process table names it), CPU share (IEEE single bits) and memory.
pub struct ProcessSample {
    pub pid: u32,
    pub name: String,
    pub status: String,
    pub cpu_usage_bits: u32,
    pub memory: u64,
}

// ---------------------------------------------------------------------------
// Detection
// ---------------------------------------------------------------------------

/// Whether a state counts as waiting.
pub open spec fn is_waiting_state(s: ThreadState) -> bool {
    s == ThreadState::Waiting || s == ThreadState::TimedWaiting
}

/// The blocked threads of `t`, in order.
pub open spec fn blocked_of(t: Seq<ThreadInfoView>) -> Seq<ThreadInfoView>
    decreases t.len(),
{
    if t.len() == 0 {
        seq![]
    } else if t.last().state == ThreadState::Blocked {
        blocked_of(t.drop_last()).push(t.last())
    } else {
        blocked_of(t.drop_last())
    }
}

/// The waiting threads of `t`, in order.
pub open spec fn waiting_of(t: Seq<ThreadInfoView>) -> Seq<ThreadInfoView>
    decreases t.len(),
{
    if t.len() == 0 {
        seq![]
    } else if is_waiting_state(t.last().state) {
        waiting_of(t.drop_last()).push(t.last())
    } else {
        waiting_of(t.drop_last())
    }
}

/// A thread as a suspect: on an unknown lock, holding none that are known.
pub open spec fn suspect(t: ThreadInfoView) -> DeadlockedThreadView {
    DeadlockedThreadView { thread_id: t.thread_id, thread_name: t.thread_name, blocked_on_lock: "Unknown"@, holding_locks: seq![] }
}

/// Whether `id` is `prefix` followed by a fresh identifier.
pub open spec fn tagged_id(id: Seq<char>, prefix: Seq<char>) -> bool {
    id.len() == prefix.len() + 36 && id.subrange(0, prefix.len() as int) == prefix
        && is_hyphenated_uuid(id.subrange(prefix.len() as int, id.len() as int))
}

/// Whether `d` reports the blocked threads `b` at `now`.
pub open spec fn is_blocked_report(d: DeadlockInfoView, b: Seq<ThreadInfoView>, now: u64) -> bool {
    &&& tagged_id(d.deadlock_id, "DL-"@)
    &&& d.involved_threads == b.map_values(|t: ThreadInfoView| suspect(t))
    &&& d.cycle_description == "High number of blocked threads detected: "@ + decimal(b.len()) + " threads"@
    &&& d.detected_at == now
    &&& d.severity == if b.len() > 20 { DeadlockSeverity::Critical } else { DeadlockSeverity::High }
}

/// Whether `d` reports the waiting threads `w` at `now`.
pub open spec fn is_waiting_report(d: DeadlockInfoView, w: Seq<ThreadInfoView>, now: u64) -> bool {
    &&& tagged_id(d.deadlock_id, "DW-"@)
    &&& d.involved_threads == w.map_values(|t: ThreadInfoView| suspect(t))
    &&& d.cycle_description == "High number of waiting threads detected: "@ + decimal(w.len()) + " threads"@
    &&& d.detected_at == now
    &&& d.severity == DeadlockSeverity::Medium
}

/// Whether `r` is what detection reports for threads `t` at `now`: one report
/// when more than ten threads are blocked, one when more than twenty wait.
pub open spec fn is_detection(r: Seq<DeadlockInfoView>, t: Seq<ThreadInfoView>, now: u64) -> bool {
    let b = blocked_of(t);
    let w = waiting_of(t);
    let nb: int = if b.len() > MAX_BLOCKED_THRESHOLD { 1 } else { 0 };
    let nw: int = if w.len() > 2 * MAX_BLOCKED_THRESHOLD { 1 } else { 0 };
    &&& r.len() == nb + nw
    &&& nb == 1 ==> is_blocked_report(r[0], b, now)
    &&& nw == 1 ==> is_waiting_report(r[nb], w, now)
}

fn tag_id(prefix: &str) -> (id: String)
    ensures
        tagged_id(id@, prefix@),
{
    let u = new_uuid_string();
    let id = concat(prefix, u.as_str());
    assert(id@.subrange(0, prefix@.len() as int) =~= prefix@);
    assert(id@.subrange(prefix@.len() as int, id@.len() as int) =~= u@);
    id
}

fn suspects(threads: &Vec<ThreadInfo>, want_blocked: bool) -> (r: Vec<DeadlockedThread>)
    ensures
        r@.map_values(|d: DeadlockedThread| d@) == (if want_blocked { blocked_of(threads_view(threads@)) } else {
            waiting_of(threads_view(threads@)) }).map_values(|t: ThreadInfoView| suspect(t)),
{
    let ghost tv = threads_view(threads@);
    let n = threads.len();
    let mut r: Vec<DeadlockedThread> = Vec::new();
    let mut i: usize = 0;
    while i < n
        invariant
            n == threads@.len(),
            tv == threads_view(threads@),
            i <= n,
            r@.map_values(|d: DeadlockedThread| d@) == (if want_blocked { blocked_of(tv.subrange(0, i as int)) } else {
                waiting_of(tv.subrange(0, i as int)) }).map_values(|t: ThreadInfoView| suspect(t)),
        decreases n - i,
    {
        proof { assert(tv.subrange(0, i + 1).drop_last() =~= tv.subrange(0, i as int)); }
        let st = threads[i].state;
        let take = if want_blocked { st == ThreadState::Blocked } else { st == ThreadState::Waiting || st == ThreadState::TimedWaiting };
        let ghost before = r@.map_values(|d: DeadlockedThread| d@);
        let ghost sel = if want_blocked { blocked_of(tv.subrange(0, i as int)) } else { waiting_of(tv.subrange(0, i as int)) };
        if take {
            let d = DeadlockedThread {
                thread_id: threads[i].thread_id,
                thread_name: threads[i].thread_name.clone(),
                blocked_on_lock: owned("Unknown"),
                holding_locks: Vec::new(),
            };
            proof { assert(strings_view(d.holding_locks@) =~= Seq::<Seq<char>>::empty()); }
            r.push(d);
            proof {
                assert(r@.map_values(|d: DeadlockedThread| d@) =~= before.push(suspect(tv[i as int])));
                assert(sel.push(tv[i as int]).map_values(|t: ThreadInfoView| suspect(t))
                    =~= sel.map_values(|t: ThreadInfoView| suspect(t)).push(suspect(tv[i as int])));
            }
        }
        i = i + 1;
    }
    proof { assert(tv.subrange(0, n as int) =~= tv); }
    r
}

fn count_matching(threads: &Vec<ThreadInfo>, want_blocked: bool) -> (n: usize)
    ensures
        n == (if want_blocked { blocked_of(threads_view(threads@)) } else { waiting_of(threads_view(threads@)) }).len(),
{
    let ghost tv = threads_view(threads@);
    let len = threads.len();
    let mut n: usize = 0;
    let mut i: usize = 0;
    while i < len
        invariant
            len == threads@.len(),
            tv == threads_view(threads@),
            i <= len,
            n == (if want_blocked { blocked_of(tv.subrange(0, i as int)) } else { waiting_of(tv.subrange(0, i as int)) }).len(),
            n <= i,
        decreases len - i,
    {
        proof { assert(tv.subrange(0, i + 1).drop_last() =~= tv.subrange(0, i as int)); }
        let st = threads[i].state;
        let take = if want_blocked { st == ThreadState::Blocked } else { st == ThreadState::Waiting || st == ThreadState::TimedWaiting };
        if take {
            n = n + 1;
        }
        i = i + 1;
    }
    proof { assert(tv.subrange(0, len as int) =~= tv); }
    n
}

/// Reports for the threads at `now` (see `is_detection`).
pub fn detect_deadlocks_at(threads: &Vec<ThreadInfo>, now: u64) -> (r: Vec<DeadlockInfo>)
    ensures
        is_detection(deadlocks_view(r@), threads_view(threads@), now),
{
    let mut r: Vec<DeadlockInfo> = Vec::new();
    let nb = count_matching(threads, true);
    if nb > MAX_BLOCKED_THRESHOLD {
        let desc = concat("High number of blocked threads detected: ", u64_to_decimal(nb as u64).as_str());
        let desc = concat(desc.as_str(), " threads");
        r.push(DeadlockInfo {
            deadlock_id: tag_id("DL-"),
            involved_threads: suspects(threads, true),
            cycle_description: desc,
            detected_at: now,
            severity: if nb > 20 { DeadlockSeverity::Critical } else { DeadlockSeverity::High },
        });
    }
    let ghost after_blocked = deadlocks_view(r@);
    let nw = count_matching(threads, false);
    if nw > 2 * MAX_BLOCKED_THRESHOLD {
        let desc = concat("High number of waiting threads detected: ", u64_to_decimal(nw as u64).as_str());
        let desc = concat(desc.as_str(), " threads");
        r.push(DeadlockInfo {
            deadlock_id: tag_id("DW-"),
            involved_threads: suspects(threads, false),
            cycle_description: desc,
            detected_at: now,
            severity: DeadlockSeverity::Medium,
        });
        assert(deadlocks_view(r@)[0] == after_blocked[0] || nb <= MAX_BLOCKED_THRESHOLD);
    }
    r
}

/// The report of a circular wait between two threads over two locks.
pub open spec fn is_circular_wait(d: DeadlockInfoView, a: u64, b: u64, lock_a: Seq<char>, lock_b: Seq<char>) -> bool {
    &&& tagged_id(d.deadlock_id, "DL-"@)
    &&& d.involved_threads == seq![
        DeadlockedThreadView { thread_id: a, thread_name: "Thread-"@ + decimal(a as nat), blocked_on_lock: lock_a, holding_locks: seq![lock_b] },
        DeadlockedThreadView { thread_id: b, thread_name: "Thread-"@ + decimal(b as nat), blocked_on_lock: lock_b, holding_locks: seq![lock_a] },
    ]
    &&& d.cycle_description == "Circular wait detected: Thread-"@ + decimal(a as nat) + " holds "@ + lock_b + " waiting for "@ + lock_a
        + ", Thread-"@ + decimal(b as nat) + " holds "@ + lock_a + " waiting for "@ + lock_b
    &&& d.severity == DeadlockSeverity::Critical
}

// ---------------------------------------------------------------------------
// The detector
// ---------------------------------------------------------------------------

/// Recent snapshots and suspected deadlocks, each kept up to a bound.
pub struct ThreadDeadlockDetector {
    thread_snapshots: Vec<ThreadSnapshot>,
    deadlock_history: Vec<DeadlockInfo>,
    monitor_interval_ms: u64,
    max_history_size: usize,
}

/// `s` with `x` appended, the oldest element making way first when `s` already
/// holds `max` elements.
pub open spec fn bounded_push<T>(s: Seq<T>, max: usize, x: T) -> Seq<T> {
    (if s.len() >= max && s.len() > 0 { s.drop_first() } else { s }).push(x)
}

impl ThreadDeadlockDetector {
    /// The snapshots, oldest first.
    pub closed spec fn snapshots(&self) -> Seq<SnapshotView> {
        self.thread_snapshots@.map_values(|s: ThreadSnapshot| s@)
    }

    /// The recorded deadlocks, oldest first.
    pub closed spec fn history(&self) -> Seq<DeadlockInfoView> {
        deadlocks_view(self.deadlock_history@)
    }

    /// How many snapshots and deadlocks are kept.
    pub closed spec fn max_history(&self) -> usize {
        self.max_history_size
    }

    /// The sampling interval in milliseconds.
    pub closed spec fn interval(&self) -> u64 {
        self.monitor_interval_ms
    }

    /// An empty detector.
    pub fn new(monitor_interval_ms: u64, max_history_size: usize) -> (d: ThreadDeadlockDetector)
        ensures
            d.snapshots() == Seq::<SnapshotView>::empty(),
            d.history() == Seq::<DeadlockInfoView>::empty(),
            d.max_history() == max_history_size,
            d.interval() == monitor_interval_ms,
    {
        let d = ThreadDeadlockDetector { thread_snapshots: Vec::new(), deadlock_history: Vec::new(), monitor_interval_ms, max_history_size };
        assert(d.snapshots() =~= Seq::<SnapshotView>::empty());
        assert(d.history() =~= Seq::<DeadlockInfoView>::empty());
        d
    }

    /// An empty detector sampling every five seconds and keeping a thousand entries.
    pub fn with_default() -> (d: ThreadDeadlockDetector)
        ensures
            d.snapshots() == Seq::<SnapshotView>::empty(),
            d.history() == Seq::<DeadlockInfoView>::empty(),
            d.max_history() == 1000,
            d.interval() == 5000,
    {
        ThreadDeadlockDetector::new(5000, 1000)
    }

    /// How many snapshots and deadlocks are kept.
    pub fn max_history_size(&self) -> (n: usize)
        ensures
            n == self.max_history(),
    {
        self.max_history_size
    }

    /// Reports for the threads now (see `is_detection`).
    pub fn detect_deadlocks(&self, threads: &Vec<ThreadInfo>) -> (r: Vec<DeadlockInfo>)
        ensures
            exists|now: u64| is_detection(deadlocks_view(r@), threads_view(threads@), now),
    {
        detect_deadlocks_at(threads, now_millis_unsigned())
    }

    /// Builds the snapshot of a process sample at `now` (no threads when the
    /// process was not found), records it and returns it.
    pub fn collect_threads_at(&mut self, sample: Option<ProcessSample>, now: u64) -> (snap: ThreadSnapshot)
        ensures
            final(self).snapshots() == bounded_push(old(self).snapshots(), old(self).max_history(), snap@),
            final(self).history() == old(self).history(),
            final(self).max_history() == old(self).max_history(),
            snap@.timestamp == now,
            is_detection(snap@.deadlocks, snap@.threads, now),
            snap@.total_count == snap@.threads.len(),
            snap@.blocked_count == blocked_of(snap@.threads).len(),
            snap@.waiting_count == waiting_of(snap@.threads).len(),
            match sample {
                None => snap@.threads == Seq::<ThreadInfoView>::empty(),
                Some(p) => snap@.threads == seq![ThreadInfoView {
                    thread_id: p.pid as u64,
                    thread_name: p.name@,
                    state: state_named(lowercase(p.status@)),
                    cpu_usage_bits: p.cpu_usage_bits,
                    memory_usage: p.memory,
                    stack_trace: seq![],
                }],
            },
    {
        let mut threads: Vec<ThreadInfo> = Vec::new();
        match sample {
            Some(p) => {
                let state = ThreadState::from(p.status.as_str());
                let t = ThreadInfo {
                    thread_id: p.pid as u64,
                    thread_name: p.name,
                    state,
                    cpu_usage_bits: p.cpu_usage_bits,
                    memory_usage: p.memory,
                    stack_trace: Vec::new(),
                };
                proof { assert(strings_view(t.stack_trace@) =~= Seq::<Seq<char>>::empty()); }
                threads.push(t);
            }
            None => {}
        }
        proof {
            let tv = threads_view(threads@);
            if tv.len() == 1 {
                assert(tv.drop_last() =~= Seq::<ThreadInfoView>::empty());
            }
        }
        let blocked = count_matching(&threads, true);
        let waiting = count_matching(&threads, false);
        let deadlocks = detect_deadlocks_at(&threads, now);
        let total = threads.len();
        let snapshot = ThreadSnapshot { threads, total_count: total, blocked_count: blocked, waiting_count: waiting, deadlocks, timestamp: now };
        let copy = snapshot.duplicate();
        self.record_snapshot(snapshot);
        proof {
            assert(threads_view(copy.threads@) =~= threads_view(copy.threads@));
        }
        copy
    }

    /// Builds, records and returns the snapshot of a process sample now.
    pub fn collect_threads(&mut self, sample: Option<ProcessSample>) -> (snap: ThreadSnapshot)
        ensures
            final(self).snapshots() == bounded_push(old(self).snapshots(), old(self).max_history(), snap@),
            final(self).history() == old(self).history(),
            snap@.total_count == snap@.threads.len(),
            exists|now: u64| is_detection(snap@.deadlocks, snap@.threads, now),
    {
        self.collect_threads_at(sample, now_millis_unsigned())
    }

    /// A circular wait between `thread_a` (blocked on `lock_a`, holding `lock_b`)
    /// and `thread_b` (the other way round), detected now.
    pub fn detect_potential_deadlock(&self, thread_a: u64, thread_b: u64, lock_a: &str, lock_b: &str) -> (r: Option<DeadlockInfo>)
        ensures
            r matches Some(d) && is_circular_wait(d@, thread_a, thread_b, lock_a@, lock_b@),
    {
        let na = u64_to_decimal(thread_a);
        let nb = u64_to_decimal(thread_b);
        let mut ha: Vec<String> = Vec::new();
        ha.push(owned(lock_b));
        let mut hb: Vec<String> = Vec::new();
        hb.push(owned(lock_a));
        let ta = DeadlockedThread { thread_id: thread_a, thread_name: concat("Thread-", na.as_str()), blocked_on_lock: owned(lock_a), holding_locks: ha };
        let tb = DeadlockedThread { thread_id: thread_b, thread_name: concat("Thread-", nb.as_str()), blocked_on_lock: owned(lock_b), holding_locks: hb };
        let mut involved: Vec<DeadlockedThread> = Vec::new();
        involved.push(ta);
        involved.push(tb);
        let d = concat("Circular wait detected: Thread-", na.as_str());
        let d = concat(d.as_str(), " holds ");
        let d = concat(d.as_str(), lock_b);
        let d = concat(d.as_str(), " waiting for ");
        let d = concat(d.as_str(), lock_a);
        let d = concat(d.as_str(), ", Thread-");
        let d = concat(d.as_str(), nb.as_str());
        let d = concat(d.as_str(), " holds ");
        let d = concat(d.as_str(), lock_a);
        let d = concat(d.as_str(), " waiting for ");
        let d = concat(d.as_str(), lock_b);
        let info = DeadlockInfo {
            deadlock_id: tag_id("DL-"),
            involved_threads: involved,
            cycle_description: d,
            detected_at: now_millis_unsigned(),
            severity: DeadlockSeverity::Critical,
        };
        proof {
            assert(strings_view(info.involved_threads@[0].holding_locks@) =~= seq![lock_b@]);
            assert(strings_view(info.involved_threads@[1].holding_locks@) =~= seq![lock_a@]);
            assert(info@.involved_threads =~= seq![
                DeadlockedThreadView { thread_id: thread_a, thread_name: "Thread-"@ + decimal(thread_a as nat), blocked_on_lock: lock_a@, holding_locks: seq![lock_b@] },
                DeadlockedThreadView { thread_id: thread_b, thread_name: "Thread-"@ + decimal(thread_b as nat), blocked_on_lock: lock_b@, holding_locks: seq![lock_a@] },
            ]);
        }
        Some(info)
    }

    fn record_snapshot(&mut self, snapshot: ThreadSnapshot)
        ensures
            final(self).snapshots() == bounded_push(old(self).snapshots(), old(self).max_history(), snapshot@),
            final(self).history() == old(self).history(),
            final(self).max_history() == old(self).max_history(),
            final(self).interval() == old(self).interval(),
    {
        let ghost before = self.snapshots();
        if self.thread_snapshots.len() >= self.max_history_size && self.thread_snapshots.len() > 0 {
            let _ = self.thread_snapshots.remove(0);
            assert(self.snapshots() =~= before.drop_first());
        }
        let ghost mid = self.snapshots();
        let ghost sv = snapshot@;
        self.thread_snapshots.push(snapshot);
        assert(self.snapshots() =~= mid.push(sv));
    }

    /// Records a suspected deadlock, dropping the oldest when the history is full.
    pub fn record_deadlock(&mut self, deadlock: DeadlockInfo)
        ensures
            final(self).history() == bounded_push(old(self).history(), old(self).max_history(), deadlock@),
            final(self).snapshots() == old(self).snapshots(),
            final(self).max_history() == old(self).max_history(),
            final(self).interval() == old(self).interval(),
    {
        let ghost before = self.history();
        if self.deadlock_history.len() >= self.max_history_size && self.deadlock_history.len() > 0 {
            let _ = self.deadlock_history.remove(0);
            assert(self.history() =~= before.drop_first());
        }
        let ghost mid = self.history();
        let ghost dv = deadlock@;
        self.deadlock_history.push(deadlock);
        assert(self.history() =~= mid.push(dv));
    }

    /// Copies of the newest `limit` snapshots, newest first.
    pub fn get_thread_snapshots(&self, limit: usize) -> (v: Vec<ThreadSnapshot>)
        ensures
            v@.map_values(|s: ThreadSnapshot| s@) == newest(self.snapshots(), limit as nat),
    {
        let len = self.thread_snapshots.len();
        let take = if limit < len { limit } else { len };
        let ghost s = self.snapshots();
        let mut r: Vec<ThreadSnapshot> = Vec::new();
        let mut i: usize = 0;
        while i < take
            invariant
                len == self.thread_snapshots@.len(),
                s == self.snapshots(),
                take <= len,
                i <= take,
                r@.map_values(|x: ThreadSnapshot| x@) == Seq::new(i as nat, |k: int| s[s.len() - 1 - k]),
            decreases take - i,
        {
            let ghost before = r@.map_values(|x: ThreadSnapshot| x@);
            r.push(self.thread_snapshots[len - 1 - i].duplicate());
            assert(r@.map_values(|x: ThreadSnapshot| x@) =~= before.push(s[s.len() - 1 - i]));
            i = i + 1;
            assert(r@.map_values(|x: ThreadSnapshot| x@) =~= Seq::new(i as nat, |k: int| s[s.len() - 1 - k]));
        }
        assert(r@.map_values(|x: ThreadSnapshot| x@) =~= newest(s, limit as nat));
        r
    }

    /// Copies of the newest `limit` recorded deadlocks, newest first.
    pub fn get_deadlock_history(&self, limit: usize) -> (v: Vec<DeadlockInfo>)
        ensures
            deadlocks_view(v@) == newest(self.history(), limit as nat),
    {
        let len = self.deadlock_history.len();
        let take = if limit < len { limit } else { len };
        let ghost s = self.history();
        let mut r: Vec<DeadlockInfo> = Vec::new();
        let mut i: usize = 0;
        while i < take
            invariant
                len == self.deadlock_history@.len(),
                s == self.history(),
                take <= len,
                i <= take,
                deadlocks_view(r@) == Seq::new(i as nat, |k: int| s[s.len() - 1 - k]),
            decreases take - i,
        {
            let ghost before = deadlocks_view(r@);
            r.push(self.deadlock_history[len - 1 - i].duplicate());
            assert(deadlocks_view(r@) =~= before.push(s[s.len() - 1 - i]));
            i = i + 1;
            assert(deadlocks_view(r@) =~= Seq::new(i as nat, |k: int| s[s.len() - 1 - k]));
        }
        assert(deadlocks_view(r@) =~= newest(s, limit as nat));
        r
    }

    /// The blocked-thread count of the newest snapshot (0 without one).
    pub fn get_blocked_thread_count(&self) -> (n: usize)
        ensures
            n == if self.snapshots().len() > 0 { self.snapshots().last().blocked_count } else { 0 },
    {
        let len = self.thread_snapshots.len();
        if len == 0 { 0 } else { self.thread_snapshots[len - 1].blocked_count }
    }

    /// The waiting-thread count of the newest snapshot (0 without one).
    pub fn get_waiting_thread_count(&self) -> (n: usize)
        ensures
            n == if self.snapshots().len() > 0 { self.snapshots().last().waiting_count } else { 0 },
    {
        let len = self.thread_snapshots.len();
        if len == 0 { 0 } else { self.thread_snapshots[len - 1].waiting_count }
    }

    /// Whether the newest snapshot holds a suspected deadlock.
    pub fn is_deadlock_detected(&self) -> (b: bool)
        ensures
            b == (self.snapshots().len() > 0 && self.snapshots().last().deadlocks.len() > 0),
    {
        let len = self.thread_snapshots.len();
        if len == 0 { false } else { self.thread_snapshots[len - 1].deadlocks.len() > 0 }
    }

    /// What the newest snapshot says of thread `thread_id`, if it lists it.
    pub fn get_thread_analysis(&self, thread_id: u64) -> (r: Option<ThreadAnalysis>)
        ensures
            match r {
                None => self.snapshots().len() == 0 || forall|i: int| 0 <= i < self.snapshots().last().threads.len()
                    ==> #[trigger] self.snapshots().last().threads[i].thread_id != thread_id,
                Some(a) => self.snapshots().len() > 0 && {
                    let snap = self.snapshots().last();
                    exists|i: int| 0 <= i < snap.threads.len() && #[trigger] snap.threads[i].thread_id == thread_id
                        && (forall|j: int| 0 <= j < i ==> #[trigger] snap.threads[j].thread_id != thread_id)
                        && a.thread_name@ == snap.threads[i].thread_name
                        && a.is_blocked == (snap.threads[i].state == ThreadState::Blocked)
                        && a.is_waiting == is_waiting_state(snap.threads[i].state)
                } && a.thread_id == thread_id && a.wait_time_ms == 0 && a.block_time_ms == 0 && a.context_switches == 0
                    && a.is_deadlocked == exists|k: int, m: int| 0 <= k < self.snapshots().last().deadlocks.len()
                        && 0 <= m < self.snapshots().last().deadlocks[k].involved_threads.len()
                        && #[trigger] self.snapshots().last().deadlocks[k].involved_threads[m].thread_id == thread_id,
            },
    {
        let len = self.thread_snapshots.len();
        if len == 0 {
            return None;
        }
        let latest = &self.thread_snapshots[len - 1];
        let ghost snap = latest@;
        assert(snap == self.snapshots().last());
        assert(snap.threads == threads_view(latest.threads@));
        let idx = match find_thread(&latest.threads, thread_id) {
            Some(k) => k,
            None => {
                proof {
                    assert forall|j: int| 0 <= j < snap.threads.len() implies #[trigger] snap.threads[j].thread_id != thread_id by {
                        assert(snap.threads[j] == latest.threads@[j]@);
                    }
                }
                return None;
            }
        };
        let t = &latest.threads[idx];
        proof {
            assert(snap.threads[idx as int] == t@);
            assert(snap.threads[idx as int].thread_id == thread_id);
            assert forall|j: int| 0 <= j < idx implies #[trigger] snap.threads[j].thread_id != thread_id by {
                assert(snap.threads[j] == latest.threads@[j]@);
            }
        }
        let dls = &latest.deadlocks;
        let nd = dls.len();
        let mut hit = false;
        let mut k: usize = 0;
        while k < nd
            invariant
                nd == dls@.len(),
                snap == latest@,
                snap.deadlocks == deadlocks_view(dls@),
                k <= nd,
                hit == exists|a: int, m: int| 0 <= a < k && 0 <= m < snap.deadlocks[a].involved_threads.len()
                    && #[trigger] snap.deadlocks[a].involved_threads[m].thread_id == thread_id,
            decreases nd - k,
        {
            let here = mentions_thread(&dls[k], thread_id);
            assert(snap.deadlocks[k as int] == dls@[k as int]@);
            hit = hit || here;
            k = k + 1;
        }
        Some(ThreadAnalysis {
            thread_id,
            thread_name: t.thread_name.clone(),
            wait_time_ms: 0,
            block_time_ms: 0,
            context_switches: 0,
            is_blocked: t.state == ThreadState::Blocked,
            is_waiting: t.state == ThreadState::Waiting || t.state == ThreadState::TimedWaiting,
            is_deadlocked: hit,
        })
    }
}

fn find_thread(threads: &Vec<ThreadInfo>, id: u64) -> (r: Option<usize>)
    ensures
        match r {
            Some(i) => i < threads@.len() && threads@[i as int].thread_id == id
                && forall|j: int| 0 <= j < i ==> #[trigger] threads@[j].thread_id != id,
            None => forall|j: int| 0 <= j < threads@.len() ==> #[trigger] threads@[j].thread_id != id,
        },
{
    let n = threads.len();
    let mut i: usize = 0;
    while i < n
        invariant
            n == threads@.len(),
            i <= n,
            forall|j: int| 0 <= j < i ==> #[trigger] threads@[j].thread_id != id,
        decreases n - i,
    {
        if threads[i].thread_id == id {
            return Some(i);
        }
        i = i + 1;
    }
    None
}

fn mentions_thread(d: &DeadlockInfo, id: u64) -> (b: bool)
    ensures
        b == exists|x: int| 0 <= x < d@.involved_threads.len() && #[trigger] d@.involved_threads[x].thread_id == id,
{
    let n = d.involved_threads.len();
    let mut i: usize = 0;
    while i < n
        invariant
            n == d.involved_threads@.len(),
            i <= n,
            forall|j: int| 0 <= j < i ==> #[trigger] d@.involved_threads[j].thread_id != id,
        decreases n - i,
    {
        assert(d@.involved_threads[i as int] == d.involved_threads@[i as int]@);
        if d.involved_threads[i].thread_id == id {
            assert(d@.involved_threads[i as int].thread_id == id);
            return true;
        }
        i = i + 1;
    }
    false
}

/// A snapshot with more than ten blocked threads reports a suspected deadlock.
pub proof fn law_many_blocked_threads_are_reported(r: Seq<DeadlockInfoView>, t: Seq<ThreadInfoView>, now: u64)
    requires
        is_detection(r, t, now),
        blocked_of(t).len() > MAX_BLOCKED_THRESHOLD,
    ensures
        r.len() >= 1,
        r[0].involved_threads.len() == blocked_of(t).len(),
{
}

/// Threads with nothing blocked or waiting give no report.
pub proof fn law_quiet_threads_give_no_report(r: Seq<DeadlockInfoView>, t: Seq<ThreadInfoView>, now: u64)
    requires
        is_detection(r, t, now),
        blocked_of(t).len() <= MAX_BLOCKED_THRESHOLD,
        waiting_of(t).len() <= 2 * MAX_BLOCKED_THRESHOLD,
    ensures
        r.len() == 0,
{
}

/// The waiting threads that detection counts and reports are exactly the
/// threads in state `Waiting` or `TimedWaiting`, in the order given.
pub proof fn law_waiting_means_waiting_or_timed_waiting(t: Seq<ThreadInfoView>)
    ensures
        waiting_of(t) == t.filter(|x: ThreadInfoView| x.state == ThreadState::Waiting || x.state == ThreadState::TimedWaiting),
        forall|x: ThreadInfoView| #[trigger] waiting_of(t).contains(x)
            <==> (t.contains(x) && (x.state == ThreadState::Waiting || x.state == ThreadState::TimedWaiting)),
    decreases t.len(),
{
    let pred = |x: ThreadInfoView| x.state == ThreadState::Waiting || x.state == ThreadState::TimedWaiting;
    reveal(Seq::filter);
    if t.len() > 0 {
        law_waiting_means_waiting_or_timed_waiting(t.drop_last());
        assert(t == t.drop_last().push(t.last()));
        assert forall|x: ThreadInfoView| #[trigger] waiting_of(t).contains(x)
            <==> (t.contains(x) && pred(x)) by {
            if t.contains(x) && x != t.last() {
                let i = choose|i: int| 0 <= i < t.len() && t[i] == x;
                assert(t.drop_last()[i] == x);
            }
            if t.drop_last().contains(x) {
                let i = choose|i: int| 0 <= i < t.drop_last().len() && t.drop_last()[i] == x;
                assert(t[i] == x);
            }
            if waiting_of(t).contains(x) && pred(t.last()) && x != t.last() {
                let i = choose|i: int| 0 <= i < waiting_of(t).len() && waiting_of(t)[i] == x;
                assert(waiting_of(t.drop_last())[i] == x);
            }
            if pred(t.last()) && waiting_of(t.drop_last()).contains(x) {
                let i = choose|i: int| 0 <= i < waiting_of(t.drop_last()).len() && waiting_of(t.drop_last())[i] == x;
                assert(waiting_of(t)[i] == x);
            }
            if pred(t.last()) && x == t.last() {
                assert(waiting_of(t)[waiting_of(t).len() - 1] == x);
            }
            assert(t[t.len() - 1] == t.last());
        }
    } else {
        assert forall|x: ThreadInfoView| #[trigger] waiting_of(t).contains(x)
            <==> (t.contains(x) && pred(x)) by {
            if t.contains(x) {
                let i = choose|i: int| 0 <= i < t.len() && t[i] == x;
            }
        }
    }
}

/// The blocked threads that detection counts and reports are exactly the
/// threads in state `Blocked`, in the order given.
pub proof fn law_blocked_means_blocked(t: Seq<ThreadInfoView>)
    ensures
        blocked_of(t) == t.filter(|x: ThreadInfoView| x.state == ThreadState::Blocked),
    decreases t.len(),
{
    reveal(Seq::filter);
    if t.len() > 0 {
        law_blocked_means_blocked(t.drop_last());
    }
}

/// A snapshot of more than twenty threads, each `Waiting` or `TimedWaiting`,
/// gets exactly one report: a Medium waiting report that names every thread.
pub proof fn law_many_waiting_threads_are_reported(r: Seq<DeadlockInfoView>, t: Seq<ThreadInfoView>, now: u64)
    requires
        is_detection(r, t, now),
        t.len() > 20,
        forall|i: int| 0 <= i < t.len()
            ==> (#[trigger] t[i]).state == ThreadState::Waiting || t[i].state == ThreadState::TimedWaiting,
    ensures
        r.len() == 1,
        r[0].severity == DeadlockSeverity::Medium,
        tagged_id(r[0].deadlock_id, "DW-"@),
        r[0].involved_threads == t.map_values(|x: ThreadInfoView| suspect(x)),
        r[0].cycle_description == "High number of waiting threads detected: "@ + decimal(t.len()) + " threads"@,
        r[0].detected_at == now,
{
    lemma_all_waiting(t);
}

proof fn lemma_all_waiting(t: Seq<ThreadInfoView>)
    requires
        forall|i: int| 0 <= i < t.len()
            ==> (#[trigger] t[i]).state == ThreadState::Waiting || t[i].state == ThreadState::TimedWaiting,
    ensures
        waiting_of(t) == t,
        blocked_of(t).len() == 0,
    decreases t.len(),
{
    if t.len() > 0 {
        assert forall|i: int| 0 <= i < t.drop_last().len() implies
            (#[trigger] t.drop_last()[i]).state == ThreadState::Waiting || t.drop_last()[i].state == ThreadState::TimedWaiting by {
            assert(t.drop_last()[i] == t[i]);
        }
        lemma_all_waiting(t.drop_last());
        assert(t[t.len() - 1] == t.last());
        assert(t.drop_last().push(t.last()) =~= t);
    }
}

/// Detection gives one report when more than ten threads are `Blocked` (High,
/// or Critical above twenty) naming each of them, then one when more than
/// twenty threads are `Waiting` or `TimedWaiting` (Medium) naming each of
/// them, and nothing else.
pub proof fn law_detection_counts_by_state(r: Seq<DeadlockInfoView>, t: Seq<ThreadInfoView>, now: u64)
    requires
        is_detection(r, t, now),
    ensures
        ({
            let b = t.filter(|x: ThreadInfoView| x.state == ThreadState::Blocked);
            let w = t.filter(|x: ThreadInfoView| x.state == ThreadState::Waiting || x.state == ThreadState::TimedWaiting);
            &&& r.len() == (if b.len() > 10 { 1int } else { 0int }) + (if w.len() > 20 { 1int } else { 0int })
            &&& b.len() > 10 ==> {
                &&& tagged_id(r[0].deadlock_id, "DL-"@)
                &&& r[0].involved_threads == b.map_values(|x: ThreadInfoView| suspect(x))
                &&& r[0].severity == (if b.len() > 20 { DeadlockSeverity::Critical } else { DeadlockSeverity::High })
            }
            &&& w.len() > 20 ==> {
                &&& tagged_id(r[r.len() - 1].deadlock_id, "DW-"@)
                &&& r[r.len() - 1].involved_threads == w.map_values(|x: ThreadInfoView| suspect(x))
                &&& r[r.len() - 1].severity == DeadlockSeverity::Medium
            }
        }),
{
    law_blocked_means_blocked(t);
    law_waiting_means_waiting_or_timed_waiting(t);
}

} // verus!
