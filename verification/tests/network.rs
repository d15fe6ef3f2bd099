use mcpanel::monitor::network::{InterfaceSample, NetworkAlertConfig, NetworkAlertType, NetworkMonitor, NetworkSnapshot, NetworkInterfaceStats};

fn sample(name: &str, rx_packets: u64, tx_packets: u64) -> InterfaceSample {
    InterfaceSample {
        interface: name.to_string(),
        rx_bytes: 1000,
        tx_bytes: 2000,
        rx_packets,
        tx_packets,
        rx_errors: 1,
        tx_errors: 2,
        rx_dropped: 0,
        tx_dropped: 0,
    }
}

fn snapshot(rx: u64, tx: u64) -> NetworkSnapshot {
    NetworkSnapshot { interfaces: vec![], total_rx_bps: rx, total_tx_bps: tx, active_connections: 0, timestamp: 0 }
}

#[test]
fn test_network_monitor_creation() {
    let monitor = NetworkMonitor::with_default();
    assert_eq!(monitor.max_history_size(), 1000);
}

#[test]
fn test_get_peak_bandwidth() {
    let monitor = NetworkMonitor::with_default();
    let (rx, tx) = monitor.get_peak_bandwidth();
    assert_eq!(rx, 0);
    assert_eq!(tx, 0);
}

#[test]
fn test_reset_peak_bandwidth() {
    let mut monitor = NetworkMonitor::with_default();
    monitor.reset_peak_bandwidth();
    let (rx, tx) = monitor.get_peak_bandwidth();
    assert_eq!(rx, 0);
    assert_eq!(tx, 0);
}

#[test]
fn test_add_alert_config() {
    let mut monitor = NetworkMonitor::with_default();

    monitor.add_alert_config(NetworkAlertConfig {
        alert_type: NetworkAlertType::RxBandwidthHigh,
        threshold_bps: 100 * 1024 * 1024,
        interface: Some("eth0".to_string()),
        enabled: true,
    });

    assert_eq!(monitor.alert_config_count(), 1);
}

#[test]
fn test_check_alerts() {
    let mut monitor = NetworkMonitor::with_default();

    monitor.add_alert_config(NetworkAlertConfig {
        alert_type: NetworkAlertType::TotalBandwidthHigh,
        threshold_bps: 10 * 1024 * 1024,
        interface: None,
        enabled: true,
    });

    let alerts = monitor.check_alerts(&snapshot(5 * 1024 * 1024, 5 * 1024 * 1024));
    assert!(alerts.is_empty());

    let alerts = monitor.check_alerts(&snapshot(10 * 1024 * 1024, 10 * 1024 * 1024));
    assert_eq!(alerts.len(), 1);
}

#[test]
fn error_and_interface_alerts() {
    let mut monitor = NetworkMonitor::with_default();
    monitor.add_alert_config(NetworkAlertConfig { alert_type: NetworkAlertType::ErrorRate, threshold_bps: 7, interface: Some("eth0".to_string()), enabled: true });
    monitor.add_alert_config(NetworkAlertConfig { alert_type: NetworkAlertType::RxBandwidthHigh, threshold_bps: 10, interface: Some("eth1".to_string()), enabled: true });
    monitor.add_alert_config(NetworkAlertConfig { alert_type: NetworkAlertType::TxBandwidthHigh, threshold_bps: 0, interface: None, enabled: false });
    let mut snap = snapshot(0, 50);
    snap.interfaces.push(NetworkInterfaceStats {
        interface: "eth0".to_string(), rx_bytes_per_sec: 0, tx_bytes_per_sec: 0, rx_packets_per_sec: 0, tx_packets_per_sec: 0,
        rx_errors: 2, tx_errors: 3, rx_dropped: 0, tx_dropped: 0, timestamp: 0,
    });
    snap.interfaces.push(NetworkInterfaceStats {
        interface: "eth1".to_string(), rx_bytes_per_sec: 11, tx_bytes_per_sec: 0, rx_packets_per_sec: 0, tx_packets_per_sec: 0,
        rx_errors: 0, tx_errors: 0, rx_dropped: 0, tx_dropped: 0, timestamp: 0,
    });
    let alerts = monitor.check_alerts(&snap);
    assert_eq!(alerts, vec![(NetworkAlertType::ErrorRate, 5, 7), (NetworkAlertType::RxBandwidthHigh, 11, 10)]);
}

#[test]
fn collection_rates_only_for_first_interface() {
    let mut m = NetworkMonitor::new(2);
    let first = sample("eth0", 10, 20);
    assert!(m.rate_query(&first, 1000).is_none());
    let snap = m.collect_network_stats_at(vec![sample("eth0", 10, 20), sample("lo", 5, 5)], (99, 99), 1000);
    assert_eq!(snap.interfaces.len(), 2);
    assert_eq!(snap.interfaces[0].rx_packets_per_sec, 0);
    assert_eq!(snap.total_rx_bps, 0);
    let q = m.rate_query(&sample("eth0", 110, 70), 3000).unwrap();
    assert_eq!(q, (100, 50, 2000));
    let snap = m.collect_network_stats_at(vec![sample("eth0", 110, 70), sample("lo", 9, 9)], (50, 25), 3000);
    assert_eq!(snap.interfaces[0].rx_packets_per_sec, 50);
    assert_eq!(snap.interfaces[0].tx_packets_per_sec, 25);
    assert_eq!(snap.interfaces[1].rx_packets_per_sec, 0);
    assert_eq!(m.get_interface_stats("eth0").unwrap().timestamp, 3000);
    assert!(m.get_interface_stats("wlan0").is_none());
    let usage = m.get_bandwidth_usage("lo").unwrap();
    assert_eq!(usage.total_rx_bytes, 1000);
    assert_eq!(m.get_bandwidth_history("eth0", 10).len(), 2);
    assert_eq!(m.get_total_bandwidth_at(60, 3000), (0, 0));
    assert_eq!(m.summary_rates(), (0, 0, 0, 0));
}
