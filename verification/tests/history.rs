use mcpanel::clock::now_millis_unsigned;
use mcpanel::monitor::history::{resample_points, DataPoint, MetricsHistory, MetricsQuery, PerformanceSnapshot};
use mcpanel::monitor::types::MetricType;

#[test]
fn test_metrics_history_creation() {
    let history = MetricsHistory::with_default();
    assert_eq!(history.max_history_size(), 10000);
}

#[test]
fn test_record_and_get_metric() {
    let mut history = MetricsHistory::with_default();
    history.record_metric(MetricType::CpuUsage, 50.0f64.to_bits(), None);
    history.record_metric(MetricType::MemoryPercent, 75.0f64.to_bits(), None);
    let latest_cpu = history.get_latest_value(MetricType::CpuUsage).map(f64::from_bits);
    let latest_mem = history.get_latest_value(MetricType::MemoryPercent).map(f64::from_bits);
    assert_eq!(latest_cpu, Some(50.0));
    assert_eq!(latest_mem, Some(75.0));
}

#[test]
fn test_query() {
    let mut history = MetricsHistory::with_default();
    let now = now_millis_unsigned();
    let start = now - 5 * 60 * 1000;
    let end = now + 60 * 1000;
    history.record_metric(MetricType::CpuUsage, 50.0f64.to_bits(), None);
    history.record_metric(MetricType::MemoryPercent, 60.0f64.to_bits(), None);
    let query = MetricsQuery {
        metric_types: vec![MetricType::CpuUsage, MetricType::MemoryPercent],
        start_time: start,
        end_time: end,
        aggregation: None,
        interval_secs: Some(60),
        limit: Some(100),
    };
    let result = history.query_points(&query);
    assert_eq!(result.len(), 2);
}

#[test]
fn history_window_values_and_ranges() {
    let mut history = MetricsHistory::new(3);
    for i in 1..=5u64 {
        history.record_metric_at(MetricType::CpuUsage, (i as f64 * 10.0).to_bits(), None, i * 1000);
    }
    // Only the newest three points are kept.
    let all = history.get_metric_history(MetricType::CpuUsage, 0, u64::MAX);
    assert_eq!(all.len(), 3);
    assert_eq!(all[0].timestamp, 3000);
    let w = history.window_values_at(MetricType::CpuUsage, 1, 5000).unwrap();
    assert_eq!(w.iter().map(|b| f64::from_bits(*b)).collect::<Vec<_>>(), vec![50.0]);
    let w2 = history.window_values_at(MetricType::CpuUsage, 60, 5000).unwrap();
    let avg: f64 = w2.iter().map(|b| f64::from_bits(*b)).sum::<f64>() / w2.len() as f64;
    assert_eq!(avg, 40.0);
    assert!(history.window_values_at(MetricType::Tps, 60, 5000).is_none());
    assert_eq!(history.get_metric_history(MetricType::CpuUsage, 3500, 4500).len(), 1);
    assert_eq!(history.get_metric_count(), 1);
    history.record_batch_at(&vec![(MetricType::Tps, 20.0f64.to_bits()), (MetricType::CpuUsage, 1.0f64.to_bits())], 9000);
    assert_eq!(history.get_metric_count(), 2);
    assert_eq!(history.get_latest_value(MetricType::CpuUsage), Some(1.0f64.to_bits()));
    history.clear_metric(MetricType::CpuUsage);
    assert_eq!(history.get_latest_value(MetricType::CpuUsage), None);
    assert_eq!(history.get_metric_count(), 1);
    let q = MetricsQuery {
        metric_types: vec![MetricType::CpuUsage, MetricType::Tps, MetricType::Tps],
        start_time: 0,
        end_time: 10_000,
        aggregation: None,
        interval_secs: None,
        limit: None,
    };
    let parts = history.query_points(&q);
    assert_eq!(parts.len(), 2);
    assert_eq!(parts[0].metric_type, MetricType::Tps);
    assert_eq!(parts[0].points[0].timestamp, 9000);
    history.clear_all();
    assert_eq!(history.get_metric_count(), 0);
}

#[test]
fn history_snapshots_and_cleanup() {
    let week = 604_800_000u64;
    let mut history = MetricsHistory::new(10);
    let s1 = PerformanceSnapshot { timestamp: 1000, metrics: vec![] }.with_metric(MetricType::Tps, 20.0f64.to_bits());
    let s1 = s1.with_metric(MetricType::Tps, 19.0f64.to_bits());
    assert_eq!(s1.metrics.len(), 1);
    assert_eq!(s1.metrics[0].1, 19.0f64.to_bits());
    history.record_snapshot(s1);
    history.record_snapshot(PerformanceSnapshot { timestamp: 2000, metrics: vec![] });
    history.record_snapshot(PerformanceSnapshot { timestamp: week + 5000, metrics: vec![] });
    assert_eq!(history.get_snapshot(2000).unwrap().timestamp, 2000);
    assert!(history.get_snapshot(2001).is_none());
    assert_eq!(history.get_latest_snapshot().unwrap().timestamp, week + 5000);
    assert_eq!(history.get_snapshots(1500, week).len(), 1);
    assert_eq!(history.get_history_size(), 3);
    // A week before week + 2500 is 2500: the two older snapshots go.
    assert_eq!(history.cleanup_old_data_at(week + 2500), 2);
    assert_eq!(history.get_history_size(), 1);
    assert_eq!(history.cleanup_old_data_at(10), 0);
    history.set_retention(MetricType::Tps, 7, 60);
    history.set_retention(MetricType::Tps, 30, 300);
    history.set_retention(MetricType::CpuUsage, 1, 10);
}

#[test]
fn history_resampling() {
    let pts = vec![
        DataPoint { timestamp: 61_000, value_bits: 1 },
        DataPoint { timestamp: 5_000, value_bits: 2 },
        DataPoint { timestamp: 119_999, value_bits: 3 },
        DataPoint { timestamp: 59_999, value_bits: 4 },
        DataPoint { timestamp: 120_000, value_bits: 5 },
    ];
    let b = resample_points(&pts, 60);
    assert_eq!(b.len(), 3);
    assert_eq!(b[0].start, 0);
    assert_eq!(b[0].values, vec![2, 4]);
    assert_eq!(b[1].start, 60_000);
    assert_eq!(b[1].values, vec![1, 3]);
    assert_eq!(b[2].start, 120_000);
    assert_eq!(b[2].values, vec![5]);
    assert!(resample_points(&vec![], 5).is_empty());
}
