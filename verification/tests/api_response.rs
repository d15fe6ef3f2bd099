use mcpanel::monitor::types::MetricType::{
    CpuUsage, DiskRead, DiskWrite, GcCount, GcPause, HeapMax, HeapUsed, MemoryPercent, MemoryUsage, NetworkRx, NetworkTx, PlayerCount,
    ThreadCount, Tps,
};

#[test]
fn monitor_api_envelopes() {
    let ok = mcpanel::monitor::api::ApiResponse::success(5u32);
    assert!(ok.success);
    assert_eq!(ok.data, Some(5));
    assert!(ok.error.is_none());
    let bad: mcpanel::monitor::api::ApiResponse<u32> = mcpanel::monitor::api::ApiResponse::error("nope");
    assert!(!bad.success);
    assert!(bad.data.is_none());
    assert_eq!(bad.error, Some("nope".to_string()));
}

#[test]
fn player_api_envelopes() {
    let ok = mcpanel::players::handlers::ApiResponse::success("x".to_string());
    assert_eq!(ok.data, Some("x".to_string()));
    let bad: mcpanel::players::handlers::ApiResponse<u8> = mcpanel::players::handlers::ApiResponse::error("broken".to_string());
    assert_eq!(bad.error, Some("broken".to_string()));
    assert!(!bad.success);
}

#[test]
fn metric_names_are_distinct() {
    let all = [CpuUsage, MemoryUsage, MemoryPercent, DiskRead, DiskWrite, NetworkRx, NetworkTx, ThreadCount, GcPause, GcCount, HeapUsed, HeapMax, Tps, PlayerCount];
    for a in all.iter() {
        for b in all.iter() {
            assert_eq!(a.as_str() == b.as_str(), a == b);
        }
    }
    assert_eq!(CpuUsage.as_str(), "cpu_usage");
    assert_eq!(PlayerCount.as_str(), "player_count");
}
