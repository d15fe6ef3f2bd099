use mcpanel::monitor::deadlock::{DeadlockSeverity, ProcessSample, ThreadDeadlockDetector, ThreadInfo, ThreadState};

#[test]
fn test_thread_deadlock_detector_creation() {
    let detector = ThreadDeadlockDetector::with_default();
    assert_eq!(detector.max_history_size(), 1000);
}

#[test]
fn test_thread_state_from_str() {
    assert_eq!(ThreadState::from("runnable"), ThreadState::Runnable);
    assert_eq!(ThreadState::from("blocked"), ThreadState::Blocked);
    assert_eq!(ThreadState::from("waiting"), ThreadState::Waiting);
}

#[test]
fn thread_state_ignores_letter_case() {
    assert_eq!(ThreadState::from("BLOCKED"), ThreadState::Blocked);
    assert_eq!(ThreadState::from("Timed Waiting"), ThreadState::TimedWaiting);
    assert_eq!(ThreadState::from("timed_waiting"), ThreadState::TimedWaiting);
    assert_eq!(ThreadState::from("New"), ThreadState::New);
    assert_eq!(ThreadState::from("terminated"), ThreadState::Terminated);
    assert_eq!(ThreadState::from("Run"), ThreadState::Unknown);
    assert_eq!(ThreadState::from(""), ThreadState::Unknown);
}

#[test]
fn test_detect_potential_deadlock() {
    let detector = ThreadDeadlockDetector::with_default();
    let deadlock = detector.detect_potential_deadlock(1, 2, "LockA", "LockB");
    assert!(deadlock.is_some());
    let dl = deadlock.unwrap();
    assert_eq!(dl.involved_threads.len(), 2);
    assert_eq!(dl.severity, DeadlockSeverity::Critical);
}

#[test]
fn potential_deadlock_describes_the_cycle() {
    let detector = ThreadDeadlockDetector::with_default();
    let dl = detector.detect_potential_deadlock(7, 42, "LockA", "LockB").unwrap();
    assert!(dl.deadlock_id.starts_with("DL-"));
    assert_eq!(dl.deadlock_id.len(), 39);
    assert_eq!(dl.involved_threads[0].thread_name, "Thread-7");
    assert_eq!(dl.involved_threads[0].blocked_on_lock, "LockA");
    assert_eq!(dl.involved_threads[0].holding_locks, vec!["LockB".to_string()]);
    assert_eq!(dl.involved_threads[1].thread_name, "Thread-42");
    assert_eq!(
        dl.cycle_description,
        "Circular wait detected: Thread-7 holds LockB waiting for LockA, Thread-42 holds LockA waiting for LockB"
    );
}

#[test]
fn test_record_deadlock() {
    let mut detector = ThreadDeadlockDetector::with_default();
    let deadlock = detector.detect_potential_deadlock(1, 2, "LockA", "LockB").unwrap();
    detector.record_deadlock(deadlock);
    let history = detector.get_deadlock_history(10);
    assert_eq!(history.len(), 1);
}

fn thread(i: u64, state: ThreadState) -> ThreadInfo {
    ThreadInfo {
        thread_id: i,
        thread_name: format!("Thread-{}", i),
        state,
        cpu_usage_bits: 0,
        memory_usage: 0,
        stack_trace: Vec::new(),
    }
}

#[test]
fn test_deadlock_detection_with_many_blocked() {
    let detector = ThreadDeadlockDetector::new(5000, 100);
    let mut threads = Vec::new();
    for i in 0..15 {
        threads.push(thread(i, ThreadState::Blocked));
    }
    let deadlocks = detector.detect_deadlocks(&threads);
    assert!(!deadlocks.is_empty());
    assert_eq!(deadlocks[0].severity, DeadlockSeverity::High);
    assert_eq!(deadlocks[0].involved_threads.len(), 15);
    assert_eq!(deadlocks[0].cycle_description, "High number of blocked threads detected: 15 threads");
}

#[test]
fn many_waiting_threads_are_reported_as_medium() {
    let detector = ThreadDeadlockDetector::new(5000, 100);
    let mut threads = Vec::new();
    for i in 0..25 {
        threads.push(thread(i, ThreadState::TimedWaiting));
    }
    for i in 25..46 {
        threads.push(thread(i, ThreadState::Blocked));
    }
    let deadlocks = detector.detect_deadlocks(&threads);
    assert_eq!(deadlocks.len(), 2);
    assert_eq!(deadlocks[0].severity, DeadlockSeverity::Critical);
    assert!(deadlocks[0].deadlock_id.starts_with("DL-"));
    assert_eq!(deadlocks[1].severity, DeadlockSeverity::Medium);
    assert!(deadlocks[1].deadlock_id.starts_with("DW-"));
    assert_eq!(deadlocks[1].involved_threads.len(), 25);
}

#[test]
fn few_blocked_threads_give_no_report() {
    let detector = ThreadDeadlockDetector::new(5000, 100);
    let threads: Vec<ThreadInfo> = (0..10).map(|i| thread(i, ThreadState::Blocked)).collect();
    assert!(detector.detect_deadlocks(&threads).is_empty());
}

#[test]
fn test_is_deadlock_detected() {
    let detector = ThreadDeadlockDetector::with_default();
    assert!(!detector.is_deadlock_detected());
}

#[test]
fn collected_sample_becomes_latest_snapshot() {
    let mut detector = ThreadDeadlockDetector::new(5000, 2);
    let sample = ProcessSample {
        pid: 99,
        name: "java".to_string(),
        status: "Blocked".to_string(),
        cpu_usage_bits: 0,
        memory: 1024,
    };
    let snap = detector.collect_threads_at(Some(sample), 1_000);
    assert_eq!(snap.total_count, 1);
    assert_eq!(snap.blocked_count, 1);
    assert_eq!(snap.waiting_count, 0);
    assert_eq!(snap.threads[0].thread_id, 99);
    assert_eq!(detector.get_blocked_thread_count(), 1);
    let analysis = detector.get_thread_analysis(99).unwrap();
    assert!(analysis.is_blocked);
    assert!(!analysis.is_deadlocked);
    assert!(detector.get_thread_analysis(5).is_none());
    detector.collect_threads_at(None, 2_000);
    detector.collect_threads_at(None, 3_000);
    let snaps = detector.get_thread_snapshots(10);
    assert_eq!(snaps.len(), 2);
    assert_eq!(snaps[0].timestamp, 3_000);
    assert_eq!(snaps[1].timestamp, 2_000);
    assert_eq!(detector.get_blocked_thread_count(), 0);
}
