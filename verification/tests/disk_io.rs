use mcpanel::clock::now_millis_unsigned;
use mcpanel::monitor::disk_io::{
    parse_disk_stats, partition_from_space, DiskAlertMetric, DiskAlertThreshold, DiskHealth, DiskIoMonitor,
    DiskIoStats, DiskSample,
};

fn stat(device: &str, read: u64, write: u64, rops: u64, wops: u64, util: f64, at: u64) -> DiskIoStats {
    DiskIoStats {
        device: device.to_string(),
        read_bytes_per_sec: read,
        write_bytes_per_sec: write,
        read_ops_per_sec: rops,
        write_ops_per_sec: wops,
        utilization_percent_bits: util.to_bits(),
        queue_depth: 1,
        timestamp: at,
    }
}

#[test]
fn test_disk_io_monitor_creation() {
    let monitor = DiskIoMonitor::with_default();
    assert_eq!(monitor.max_history_size(), 1000);
}

#[test]
fn test_get_io_history() {
    let mut monitor = DiskIoMonitor::with_default();
    for i in 0..5u64 {
        monitor.record_io_stats(stat("sda", i * 1000, i * 500, i * 10, i * 5, i as f64, now_millis_unsigned()));
    }
    let history = monitor.get_io_history(Some("sda"), 3);
    assert_eq!(history.len(), 3);
}

#[test]
fn test_get_high_io_devices() {
    let mut monitor = DiskIoMonitor::with_default();
    let now = now_millis_unsigned();
    monitor.record_io_stats(stat("sda", 100 * 1024 * 1024, 50 * 1024 * 1024, 1000, 500, 80.0, now));
    let high_io = monitor.get_high_io_devices_at(100, now).unwrap();
    assert!(high_io.contains(&"sda".to_string()));
}

#[test]
fn test_get_total_io_stats() {
    let mut monitor = DiskIoMonitor::with_default();
    let now = now_millis_unsigned();
    for _ in 0..5 {
        monitor.record_io_stats(stat("sda", 1000, 500, 10, 5, 10.0, now));
    }
    let (total_read, total_write, count) = monitor.get_total_io_stats_at(60, now).unwrap();
    assert_eq!(total_read, 5000);
    assert_eq!(total_write, 2500);
    assert_eq!(count, 5);
}

#[test]
fn disk_io_queries() {
    let mut monitor = DiskIoMonitor::new(10);
    monitor.record_io_stats(stat("sda", 10, 20, 1, 2, 5.0, 100_000));
    monitor.record_io_stats(stat("sdb", 30, 40, 3, 4, 7.5, 150_000));
    monitor.record_io_stats(stat("sda", 50, 60, 5, 6, 9.0, 160_000));
    let h = monitor.get_io_history(None, 2);
    assert_eq!(h[0].device, "sda");
    assert_eq!(h[1].device, "sdb");
    assert_eq!(monitor.get_io_history(Some("sdb"), 5).len(), 1);
    assert_eq!(f64::from_bits(monitor.get_io_utilization("sda")), 9.0);
    assert_eq!(monitor.get_io_utilization("nvme0"), 0);
    // Window (130 s, 160 s]: sdb and the second sda entry.
    assert_eq!(monitor.calculate_disk_iops_at("sda", 30, 160_000), Some((5, 6)));
    assert_eq!(monitor.calculate_disk_iops_at("sda", 100, 160_000), Some((6, 8)));
    assert_eq!(monitor.get_total_io_stats_at(30, 160_000), Some((80, 100, 2)));
    monitor.record_io_stats(stat("sdc", u64::MAX, 1, 0, 0, 0.0, 160_000));
    assert_eq!(monitor.get_total_io_stats_at(30, 160_000), None);
    assert_eq!(monitor.get_high_io_devices_at(0, 160_000), None);
}

#[test]
fn disk_io_high_devices_set() {
    let mut monitor = DiskIoMonitor::new(10);
    let mib = 1024 * 1024;
    monitor.record_io_stats(stat("sda", 60 * mib, 0, 0, 0, 0.0, 100_000));
    monitor.record_io_stats(stat("sdb", 10 * mib, 0, 0, 0, 0.0, 100_000));
    monitor.record_io_stats(stat("sda", 50 * mib, 0, 0, 0, 0.0, 110_000));
    monitor.record_io_stats(stat("sdb", 500 * mib, 0, 0, 0, 0.0, 10_000));
    let r = monitor.get_high_io_devices_at(100, 120_000).unwrap();
    assert_eq!(r, vec!["sda".to_string()]);
    assert!(monitor.get_high_io_devices_at(200, 120_000).unwrap().is_empty());
    // An empty minute never looks at the limit.
    assert_eq!(monitor.get_high_io_devices_at(u64::MAX, 10_000_000), Some(vec![]));
    assert_eq!(monitor.get_high_io_devices_at(u64::MAX, 120_000), None);
}

#[test]
fn disk_io_collection_rates() {
    let mut monitor = DiskIoMonitor::with_default();
    let first = vec![
        DiskSample { device: "sda".to_string(), read_bytes: 1000, write_bytes: 2000 },
        DiskSample { device: "sdb".to_string(), read_bytes: 10, write_bytes: 20 },
    ];
    assert!(monitor.rate_query(&first[0], 1_000).is_none());
    let out = monitor.collect_io_stats_at(first, (0, 0), 1_000);
    assert!(out.is_empty());

    let second = DiskSample { device: "sda".to_string(), read_bytes: 5000, write_bytes: 1000 };
    assert_eq!(monitor.rate_query(&second, 3_000), Some((4000, 0, 2000)));
    assert!(monitor.rate_query(&second, 1_000).is_none());
    let out = monitor.collect_io_stats_at(vec![second], (2000, 0), 3_000);
    assert_eq!(out.len(), 1);
    assert_eq!(out[0].read_bytes_per_sec, 2000);
    assert_eq!(out[0].timestamp, 3_000);
    assert_eq!(monitor.get_io_history(None, 10).len(), 1);

    // A device read for the first time gets no rates.
    let fresh = DiskSample { device: "sdz".to_string(), read_bytes: 1, write_bytes: 1 };
    assert!(monitor.rate_query(&fresh, 5_000).is_none());
}

#[test]
fn disk_io_parse_kernel_stats() {
    let text = "   8       0 sda 1000 20 300 400 500 60 700 800 900 10 11 12 13 14\n\
                7       0 loop0 1 2 3 4 5 6 7 8 9 10 11 12 13\n\
                1       0 ram0 1 2 3 4 5 6 7 8 9 10 11 12 13\n\
                short line\n\
                259 0 nvme0n1 1 2 x 4 5 6 +8 9 10 11 12 13\r\n";
    let v = parse_disk_stats(text).unwrap();
    assert_eq!(v.len(), 2);
    assert_eq!(v[0].device, "sda");
    assert_eq!(v[0].read_bytes, 300 * 512);
    assert_eq!(v[0].write_bytes, 700 * 512);
    assert_eq!(v[1].device, "nvme0n1");
    assert_eq!(v[1].read_bytes, 0);
    assert_eq!(v[1].write_bytes, 8 * 512);
    assert!(parse_disk_stats("").unwrap().is_empty());
    let big = format!("8 0 sdx 1 2 {} 4 5 6 7 8 9 10 11 12", u64::MAX / 512 + 1);
    assert!(parse_disk_stats(&big).is_none());
    let fits = format!("8 0 sdx 1 2 {} 4 5 6 7 8 9 10 11 12", u64::MAX / 512);
    assert_eq!(parse_disk_stats(&fits).unwrap()[0].read_bytes, (u64::MAX / 512) * 512);
    let too_big_number = "8 0 sdx 1 2 99999999999999999999999 4 5 6 7 8 9 10 11 12";
    assert_eq!(parse_disk_stats(too_big_number).unwrap()[0].read_bytes, 0);
}

#[test]
fn disk_io_partitions_thresholds_health() {
    let mut monitor = DiskIoMonitor::with_default();
    let p = partition_from_space("root".to_string(), "/".to_string(), 100, 130, 0.0f64.to_bits());
    assert_eq!(p.used_space, 0);
    let q = partition_from_space("home".to_string(), "/home".to_string(), 100, 30, 70.0f64.to_bits());
    assert_eq!(q.used_space, 70);
    assert_eq!(q.file_system, "unknown");
    let kept = monitor.record_partitions(vec![p, q]);
    assert_eq!(kept.len(), 2);
    assert_eq!(monitor.get_partition_info()[1].mount_point, "/home");

    monitor.add_threshold(DiskAlertThreshold { metric: DiskAlertMetric::ReadBytesPerSec, threshold_value_bits: 100000.0f64.to_bits(), enabled: true });
    monitor.add_threshold(DiskAlertThreshold { metric: DiskAlertMetric::UsagePercent, threshold_value_bits: 1.0f64.to_bits(), enabled: false });
    let e = monitor.enabled_thresholds();
    assert_eq!(e, vec![(DiskAlertMetric::ReadBytesPerSec, 100000.0f64.to_bits())]);

    let h = monitor.get_disk_health("sda");
    assert_eq!(h.health, DiskHealth::Unknown);
    assert_eq!(h.device, "sda");
    assert!(h.temperature_bits.is_none());
}
