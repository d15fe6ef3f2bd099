use mcpanel::monitor::jvm_gc::{JvmGcConfig, JvmGcMonitor, JvmHeapStats};
use mcpanel::monitor::types::GcMetrics;

fn gc(kind: &str, pause: f64, at: u64) -> GcMetrics {
    GcMetrics { gc_type: kind.to_string(), pause_ms_bits: pause.to_bits(), before_heap: 1000, after_heap: 500, timestamp: at }
}

#[test]
fn test_jvm_gc_monitor_creation() {
    let monitor = JvmGcMonitor::with_default_config();
    assert_eq!(monitor.config().process_name, "java");
    assert_eq!(monitor.config().refresh_interval_secs, 5);
}

#[test]
fn test_record_gc_event() {
    let mut monitor = JvmGcMonitor::with_default_config();
    let gc = monitor.simulate_gc_event("GC", 100.0f64.to_bits(), 1000000, 500000);

    assert_eq!(gc.gc_type, "GC");
    assert_eq!(f64::from_bits(gc.pause_ms_bits), 100.0);
    assert_eq!(gc.before_heap, 1000000);
    assert_eq!(gc.after_heap, 500000);
}

#[test]
fn test_get_gc_history() {
    let mut monitor = JvmGcMonitor::with_default_config();
    for i in 0..5 {
        monitor.simulate_gc_event(&format!("GC-{}", i), (i as f64 * 10.0).to_bits(), 1000, 500);
    }
    let history = monitor.get_gc_history(3);
    assert_eq!(history.len(), 3);
}

#[test]
fn test_gc_count_tracking() {
    let mut monitor = JvmGcMonitor::with_default_config();
    monitor.simulate_gc_event("GC", 100.0f64.to_bits(), 1000, 500);
    monitor.simulate_gc_event("GC", 100.0f64.to_bits(), 1000, 500);
    monitor.simulate_gc_event("GC", 100.0f64.to_bits(), 1000, 500);
    let count = monitor.get_gc_count(60);
    assert_eq!(count, 3);
}

#[test]
fn jvm_gc_windows_and_bounds() {
    let mut monitor = JvmGcMonitor::new(JvmGcConfig { process_name: "java".to_string(), refresh_interval_secs: 1, history_size: 3 });
    monitor.record_gc_event(gc("a", 1.0, 10_000));
    monitor.record_gc_event(gc("b", 2.0, 50_000));
    monitor.record_gc_event(gc("c", 3.0, 70_000));
    monitor.record_gc_event(gc("d", 4.0, 90_000));
    let h = monitor.get_gc_history(10);
    assert_eq!(h.len(), 3);
    assert_eq!(h[0].gc_type, "d");
    assert_eq!(h[2].gc_type, "b");
    // The window (30 s, 90 s] holds b, c and d; a collection exactly at the cutoff is left out.
    assert_eq!(monitor.get_gc_count_at(60, 90_000), 3);
    assert_eq!(monitor.get_gc_count_at(40, 90_000), 2);
    assert_eq!(monitor.get_gc_count_at(20, 90_000), 1);
    let recent = monitor.recent_gc_events_at(60, 90_000);
    let total: f64 = recent.iter().map(|g| f64::from_bits(g.pause_ms_bits)).sum();
    assert_eq!(total, 9.0);
    // A window longer than the clock reaches back to the epoch.
    assert_eq!(monitor.get_gc_count_at(u64::MAX, 90_000), 3);

    monitor.record_heap_snapshot(JvmHeapStats {
        heap_init: 1,
        heap_used: 2,
        heap_committed: 3,
        heap_max: 4,
        non_heap_init: 5,
        non_heap_used: 6,
        non_heap_committed: 7,
        timestamp: 8,
    });
    let heaps = monitor.get_heap_history(5);
    assert_eq!(heaps.len(), 1);
    assert_eq!(heaps[0].heap_max, 4);
}
