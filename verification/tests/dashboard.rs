use mcpanel::monitor::dashboard::{
    AlertSummary, DashboardCategory, DashboardManager, DashboardSnapshot, VisualizationConfig, Widget,
    WidgetSize, WidgetType,
};
use mcpanel::monitor::types::{AlertLevel, MetricType};

fn stat_widget(id: &str) -> Widget {
    Widget {
        id: id.to_string(),
        widget_type: WidgetType::StatCard,
        title: "Test Widget".to_string(),
        metrics: vec![],
        visualization: VisualizationConfig {
            visualization_type: WidgetType::StatCard,
            show_legend: false,
            show_grid: false,
            show_axis_labels: false,
            color_scheme: None,
            thresholds: None,
            time_range_secs: 60,
            animations_enabled: false,
        },
        size: WidgetSize { width: 4, height: 2, min_width: 2, min_height: 2 },
        refresh_interval_secs: 5,
        alert_config: None,
    }
}

fn snapshot(dashboard_id: &str, timestamp: u64) -> DashboardSnapshot {
    DashboardSnapshot {
        dashboard_id: dashboard_id.to_string(),
        timestamp,
        widget_data: vec![],
        active_alerts: vec![AlertSummary {
            id: "a".to_string(),
            level: AlertLevel::Warning,
            metric_type: MetricType::CpuUsage,
            message: "high".to_string(),
            value_bits: 90.0f64.to_bits(),
            timestamp,
        }],
    }
}

#[test]
fn test_dashboard_manager_creation() {
    let manager = DashboardManager::with_default();
    assert_eq!(manager.max_snapshots(), 100);
}

#[test]
fn test_create_dashboard() {
    let mut manager = DashboardManager::with_default();
    let dashboard = manager.create_dashboard("Test", "Test dashboard", "admin");

    assert_eq!(dashboard.name, "Test");
    assert_eq!(dashboard.created_by, "admin");
    assert!(!dashboard.is_default);
}

#[test]
fn test_add_widget() {
    let mut manager = DashboardManager::with_default();
    let dashboard = manager.create_dashboard("Test", "Test", "admin");

    let result = manager.add_widget(&dashboard.id, stat_widget("new"));
    assert!(result.is_ok());
    assert_eq!(result.unwrap().widgets.len(), 1);
}

#[test]
fn test_set_default_dashboard() {
    let mut manager = DashboardManager::with_default();
    let d1 = manager.create_dashboard("D1", "First", "admin");
    let d2 = manager.create_dashboard("D2", "Second", "admin");

    manager.set_default_dashboard(&d1.id).unwrap();
    let default = manager.get_default_dashboard();
    assert_eq!(default.unwrap().name, "D1");

    manager.set_default_dashboard(&d2.id).unwrap();
    let default = manager.get_default_dashboard();
    assert_eq!(default.unwrap().name, "D2");
}

#[test]
fn test_create_from_template() {
    let mut manager = DashboardManager::with_default();
    manager.init_default_templates();

    let dashboard = manager.create_from_template("overview", "My Overview", "admin");
    assert!(dashboard.is_ok());

    let created = dashboard.unwrap();
    assert_eq!(created.name, "My Overview");
    assert!(!created.widgets.is_empty());
}

#[test]
fn test_overview_template_creation() {
    let template = DashboardManager::create_overview_template();
    assert_eq!(template.id, "overview");
    assert!(!template.dashboard.widgets.is_empty());
}

#[test]
fn overview_template_layout_and_widgets() {
    let t = DashboardManager::create_overview_template();
    assert_eq!(t.category, DashboardCategory::Overview);
    assert_eq!(t.name, "Overview Dashboard");
    assert!(t.dashboard.is_default);
    assert_eq!(t.dashboard.layout.columns, 12);
    assert_eq!(t.dashboard.layout.rows, 11);
    let ids: Vec<&str> = t.dashboard.widgets.iter().map(|w| w.id.as_str()).collect();
    assert_eq!(ids, vec!["stats", "cpu_chart", "memory_chart", "network", "alerts"]);
    assert_eq!(t.dashboard.layout.widget_positions.len(), 5);
    let cpu = &t.dashboard.widgets[1];
    let thresholds = cpu.visualization.thresholds.as_ref().unwrap();
    assert_eq!(f64::from_bits(thresholds[0].value_bits), 80.0);
    assert_eq!(f64::from_bits(thresholds[1].value_bits), 95.0);
    let alert = cpu.alert_config.as_ref().unwrap();
    assert_eq!(alert.comparison_operator, "greater_than");
    assert_eq!(t.dashboard.widgets[0].metrics.len(), 4);
    assert_eq!(t.dashboard.widgets[4].refresh_interval_secs, 10);
}

#[test]
fn unknown_dashboard_and_template_are_errors() {
    let mut manager = DashboardManager::with_default();
    assert_eq!(manager.add_widget("nope", stat_widget("w")).err().unwrap(), "Dashboard not found");
    assert_eq!(manager.delete_dashboard("nope").err().unwrap(), "Dashboard not found");
    assert_eq!(manager.remove_widget("nope", "w").err().unwrap(), "Dashboard not found");
    assert_eq!(manager.create_from_template("nope", "x", "y").err().unwrap(), "Template not found");
    let d = manager.create_dashboard("D", "d", "admin");
    assert_eq!(manager.update_widget(&d.id, stat_widget("missing")).err().unwrap(), "Widget not found");
}

#[test]
fn widget_update_and_removal() {
    let mut manager = DashboardManager::with_default();
    let d = manager.create_dashboard("D", "d", "admin");
    let with = manager.add_widget(&d.id, stat_widget("ignored")).unwrap();
    let wid = with.widgets[0].id.clone();
    assert_ne!(wid, "ignored");
    let mut changed = stat_widget(&wid);
    changed.title = "Renamed".to_string();
    let w = manager.update_widget(&d.id, changed).unwrap();
    assert_eq!(w.title, "Renamed");
    assert_eq!(manager.get_dashboard(&d.id).unwrap().widgets[0].title, "Renamed");
    let after = manager.remove_widget(&d.id, &wid).unwrap();
    assert!(after.widgets.is_empty());
    let removed = manager.delete_dashboard(&d.id).unwrap();
    assert_eq!(removed.name, "D");
    assert!(manager.get_dashboard(&d.id).is_none());
}

#[test]
fn snapshots_are_bounded_and_read_newest_first() {
    let mut manager = DashboardManager::new(2);
    manager.record_snapshot(snapshot("a", 1));
    manager.record_snapshot(snapshot("b", 2));
    manager.record_snapshot(snapshot("a", 3));
    let h = manager.get_snapshot_history("a", 10);
    assert_eq!(h.len(), 1);
    assert_eq!(h[0].timestamp, 3);
    manager.record_snapshot(snapshot("a", 4));
    let h = manager.get_snapshot_history("a", 10);
    assert_eq!(h.iter().map(|s| s.timestamp).collect::<Vec<_>>(), vec![4, 3]);
    assert_eq!(manager.get_snapshot_history("a", 1).len(), 1);
}

#[test]
fn templates_and_listing() {
    let mut manager = DashboardManager::with_default();
    manager.init_default_templates();
    let mut names: Vec<String> = manager.get_all_templates().into_iter().map(|t| t.id).collect();
    names.sort();
    assert_eq!(names, vec!["overview".to_string(), "performance".to_string()]);
    manager.create_dashboard("A", "a", "u");
    manager.create_dashboard("B", "b", "u");
    assert_eq!(manager.get_all_dashboards().len(), 2);
    assert!(manager.get_default_dashboard().is_none());
}
