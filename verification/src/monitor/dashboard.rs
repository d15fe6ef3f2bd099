//! Monitoring dashboards: widgets with their metrics and display settings, the
//! grid positions of the widgets, dashboard templates, and recorded snapshots of
//! what a dashboard showed. Measured values and thresholds are carried as the
//! bit patterns of IEEE doubles; times are milliseconds since the epoch.
use vstd::prelude::*;
use crate::keyed::{Keyed, Store, unique_keys, has_key, lemma_store_keys};
use crate::ids::is_hyphenated_uuid;
use crate::text::{owned, str_eq, opt_view, copy_opt_string, copy_vec, copy_strings, strings_view};
use crate::ids::new_uuid_string;
use crate::clock::now_millis_unsigned;
use crate::monitor::types::{MetricType, AlertLevel};
use crate::monitor::deadlock::bounded_push;
use crate::security::audit_log::newest;
use crate::dup::{Duplicate, views, opt_views, dup_vec, dup_opt_vec, newest_dup};

verus! {

/// How a widget draws its data.
#[derive(Clone, Copy, PartialEq, Eq, Structural, Debug)]
pub enum WidgetType {
    LineChart,
    AreaChart,
    BarChart,
    Gauge,
    StatCard,
    AlertList,
    Table,
    Heatmap,
    Counter,
    ProgressBar,
}

/// What a dashboard template is for.
#[derive(Clone, Copy, PartialEq, Eq, Structural, Debug)]
pub enum DashboardCategory {
    Overview,
    Performance,
    Network,
    Security,
    Custom,
}

/// One metric shown by a widget.
pub struct WidgetMetric {
    pub metric_type: MetricType,
    pub label: String,
    pub color: Option<String>,
    pub aggregation: Option<String>,
}

/// The plain content of a widget metric.
pub struct WidgetMetricView {
    pub metric_type: MetricType,
    pub label: Seq<char>,
    pub color: Option<Seq<char>>,
    pub aggregation: Option<Seq<char>>,
}

impl View for WidgetMetric {
    type V = WidgetMetricView;

    open spec fn view(&self) -> WidgetMetricView {
        WidgetMetricView {
            metric_type: self.metric_type,
            label: self.label@,
            color: opt_view(self.color),
            aggregation: opt_view(self.aggregation),
        }
    }
}

impl Duplicate for WidgetMetric {
    fn dup(&self) -> (r: WidgetMetric) {
        WidgetMetric {
            metric_type: self.metric_type,
            label: self.label.clone(),
            color: copy_opt_string(&self.color),
            aggregation: copy_opt_string(&self.aggregation),
        }
    }
}

/// A marked level on a chart; `value_bits` is the level as an IEEE double bit pattern.
pub struct VisualizationThreshold {
    pub value_bits: u64,
    pub color: String,
    pub label: String,
}

/// The plain content of a chart threshold.
pub struct ThresholdView {
    pub value_bits: u64,
    pub color: Seq<char>,
    pub label: Seq<char>,
}

impl View for VisualizationThreshold {
    type V = ThresholdView;

    open spec fn view(&self) -> ThresholdView {
        ThresholdView { value_bits: self.value_bits, color: self.color@, label: self.label@ }
    }
}

impl Duplicate for VisualizationThreshold {
    fn dup(&self) -> (r: VisualizationThreshold) {
        VisualizationThreshold { value_bits: self.value_bits, color: self.color.clone(), label: self.label.clone() }
    }
}

/// How a widget is drawn.
pub struct VisualizationConfig {
    pub visualization_type: WidgetType,
    pub show_legend: bool,
    pub show_grid: bool,
    pub show_axis_labels: bool,
    pub color_scheme: Option<String>,
    pub thresholds: Option<Vec<VisualizationThreshold>>,
    pub time_range_secs: u64,
    pub animations_enabled: bool,
}

/// The plain content of display settings.
pub struct VisualizationView {
    pub visualization_type: WidgetType,
    pub show_legend: bool,
    pub show_grid: bool,
    pub show_axis_labels: bool,
    pub color_scheme: Option<Seq<char>>,
    pub thresholds: Option<Seq<ThresholdView>>,
    pub time_range_secs: u64,
    pub animations_enabled: bool,
}

impl View for VisualizationConfig {
    type V = VisualizationView;

    open spec fn view(&self) -> VisualizationView {
        VisualizationView {
            visualization_type: self.visualization_type,
            show_legend: self.show_legend,
            show_grid: self.show_grid,
            show_axis_labels: self.show_axis_labels,
            color_scheme: opt_view(self.color_scheme),
            thresholds: opt_views(self.thresholds),
            time_range_secs: self.time_range_secs,
            animations_enabled: self.animations_enabled,
        }
    }
}

impl Duplicate for VisualizationConfig {
    fn dup(&self) -> (r: VisualizationConfig) {
        VisualizationConfig {
            visualization_type: self.visualization_type,
            show_legend: self.show_legend,
            show_grid: self.show_grid,
            show_axis_labels: self.show_axis_labels,
            color_scheme: copy_opt_string(&self.color_scheme),
            thresholds: dup_opt_vec(&self.thresholds),
            time_range_secs: self.time_range_secs,
            animations_enabled: self.animations_enabled,
        }
    }
}

/// The size of a widget in grid cells, and the least it may shrink to.
#[derive(Clone, Copy, PartialEq, Eq, Structural, Debug)]
pub struct WidgetSize {
    pub width: u32,
    pub height: u32,
    pub min_width: u32,
    pub min_height: u32,
}

/// When a widget raises alerts; thresholds are IEEE double bit patterns.
pub struct WidgetAlertConfig {
    pub enabled: bool,
    pub warning_threshold_bits: Option<u64>,
    pub critical_threshold_bits: Option<u64>,
    pub comparison_operator: String,
}

/// The plain content of a widget's alert settings.
pub struct AlertConfigView {
    pub enabled: bool,
    pub warning_threshold_bits: Option<u64>,
    pub critical_threshold_bits: Option<u64>,
    pub comparison_operator: Seq<char>,
}

impl View for WidgetAlertConfig {
    type V = AlertConfigView;

    open spec fn view(&self) -> AlertConfigView {
        AlertConfigView {
            enabled: self.enabled,
            warning_threshold_bits: self.warning_threshold_bits,
            critical_threshold_bits: self.critical_threshold_bits,
            comparison_operator: self.comparison_operator@,
        }
    }
}

impl Duplicate for WidgetAlertConfig {
    fn dup(&self) -> (r: WidgetAlertConfig) {
        WidgetAlertConfig {
            enabled: self.enabled,
            warning_threshold_bits: self.warning_threshold_bits,
            critical_threshold_bits: self.critical_threshold_bits,
            comparison_operator: self.comparison_operator.clone(),
        }
    }
}

/// The plain content of an optional alert setting.
pub open spec fn opt_alert_view(o: Option<WidgetAlertConfig>) -> Option<AlertConfigView> {
    match o {
        Some(c) => Some(c@),
        None => None,
    }
}

/// One panel of a dashboard.
pub struct Widget {
    pub id: String,
    pub widget_type: WidgetType,
    pub title: String,
    pub metrics: Vec<WidgetMetric>,
    pub visualization: VisualizationConfig,
    pub size: WidgetSize,
    pub refresh_interval_secs: u64,
    pub alert_config: Option<WidgetAlertConfig>,
}

/// The plain content of a widget.
pub struct WidgetView {
    pub id: Seq<char>,
    pub widget_type: WidgetType,
    pub title: Seq<char>,
    pub metrics: Seq<WidgetMetricView>,
    pub visualization: VisualizationView,
    pub size: WidgetSize,
    pub refresh_interval_secs: u64,
    pub alert_config: Option<AlertConfigView>,
}

impl View for Widget {
    type V = WidgetView;

    open spec fn view(&self) -> WidgetView {
        WidgetView {
            id: self.id@,
            widget_type: self.widget_type,
            title: self.title@,
            metrics: views(self.metrics@),
            visualization: self.visualization@,
            size: self.size,
            refresh_interval_secs: self.refresh_interval_secs,
            alert_config: opt_alert_view(self.alert_config),
        }
    }
}

impl Duplicate for Widget {
    fn dup(&self) -> (r: Widget) {
        Widget {
            id: self.id.clone(),
            widget_type: self.widget_type,
            title: self.title.clone(),
            metrics: dup_vec(&self.metrics),
            visualization: self.visualization.dup(),
            size: self.size,
            refresh_interval_secs: self.refresh_interval_secs,
            alert_config: match &self.alert_config {
                Some(c) => Some(c.dup()),
                None => None,
            },
        }
    }
}

/// Where a widget sits on the grid.
#[derive(Clone, Copy, PartialEq, Eq, Structural, Debug)]
pub struct WidgetPosition {
    pub x: u32,
    pub y: u32,
    pub width: u32,
    pub height: u32,
}

/// A widget id with its grid position.
pub struct PlacedWidget {
    pub widget_id: String,
    pub position: WidgetPosition,
}

impl Keyed for PlacedWidget {
    open spec fn key_view(&self) -> Seq<char> {
        self.widget_id@
    }

    fn key_str(&self) -> (r: &str) {
        self.widget_id.as_str()
    }
}

/// The grid of a dashboard and the position of each placed widget.
pub struct DashboardLayout {
    pub columns: u32,
    pub rows: u32,
    pub widget_positions: Store<PlacedWidget>,
}

/// The plain content of a layout: grid size and positions by widget id.
pub struct LayoutView {
    pub columns: u32,
    pub rows: u32,
    pub widget_positions: Map<Seq<char>, WidgetPosition>,
}

/// The positions held by a store of placed widgets, by widget id.
pub open spec fn positions(s: Store<PlacedWidget>) -> Map<Seq<char>, WidgetPosition> {
    s.map().map_values(|p: PlacedWidget| p.position)
}

impl View for DashboardLayout {
    type V = LayoutView;

    open spec fn view(&self) -> LayoutView {
        LayoutView { columns: self.columns, rows: self.rows, widget_positions: positions(self.widget_positions) }
    }
}

impl Duplicate for DashboardLayout {
    fn dup(&self) -> (r: DashboardLayout) {
        let items = self.widget_positions.as_vec();
        self.widget_positions.facts();
        let n = items.len();
        let mut copied: Vec<PlacedWidget> = Vec::new();
        let mut i: usize = 0;
        while i < n
            invariant
                n == items@.len(),
                i <= n,
                copied@ == items@.subrange(0, i as int),
            decreases n - i,
        {
            copied.push(PlacedWidget { widget_id: items[i].widget_id.clone(), position: items[i].position });
            i = i + 1;
            assert(copied@ =~= items@.subrange(0, i as int));
        }
        assert(items@.subrange(0, n as int) =~= items@);
        let store = Store::from_vec(copied);
        DashboardLayout { columns: self.columns, rows: self.rows, widget_positions: store }
    }
}

/// A dashboard: widgets laid out on a grid.
pub struct Dashboard {
    pub id: String,
    pub name: String,
    pub description: String,
    pub widgets: Vec<Widget>,
    pub layout: DashboardLayout,
    pub refresh_interval_secs: u64,
    pub is_default: bool,
    pub created_at: u64,
    pub updated_at: u64,
    pub created_by: String,
}

/// The plain content of a dashboard.
pub struct DashboardView {
    pub id: Seq<char>,
    pub name: Seq<char>,
    pub description: Seq<char>,
    pub widgets: Seq<WidgetView>,
    pub layout: LayoutView,
    pub refresh_interval_secs: u64,
    pub is_default: bool,
    pub created_at: u64,
    pub updated_at: u64,
    pub created_by: Seq<char>,
}

impl View for Dashboard {
    type V = DashboardView;

    open spec fn view(&self) -> DashboardView {
        DashboardView {
            id: self.id@,
            name: self.name@,
            description: self.description@,
            widgets: views(self.widgets@),
            layout: self.layout@,
            refresh_interval_secs: self.refresh_interval_secs,
            is_default: self.is_default,
            created_at: self.created_at,
            updated_at: self.updated_at,
            created_by: self.created_by@,
        }
    }
}

impl Duplicate for Dashboard {
    fn dup(&self) -> (r: Dashboard) {
        Dashboard {
            id: self.id.clone(),
            name: self.name.clone(),
            description: self.description.clone(),
            widgets: dup_vec(&self.widgets),
            layout: self.layout.dup(),
            refresh_interval_secs: self.refresh_interval_secs,
            is_default: self.is_default,
            created_at: self.created_at,
            updated_at: self.updated_at,
            created_by: self.created_by.clone(),
        }
    }
}

impl Keyed for Dashboard {
    open spec fn key_view(&self) -> Seq<char> {
        self.id@
    }

    fn key_str(&self) -> (r: &str) {
        self.id.as_str()
    }
}

/// A dashboard offered as a starting point.
pub struct DashboardTemplate {
    pub id: String,
    pub name: String,
    pub description: String,
    pub category: DashboardCategory,
    pub dashboard: Dashboard,
}

/// The plain content of a template.
pub struct TemplateView {
    pub id: Seq<char>,
    pub name: Seq<char>,
    pub description: Seq<char>,
    pub category: DashboardCategory,
    pub dashboard: DashboardView,
}

impl View for DashboardTemplate {
    type V = TemplateView;

    open spec fn view(&self) -> TemplateView {
        TemplateView {
            id: self.id@,
            name: self.name@,
            description: self.description@,
            category: self.category,
            dashboard: self.dashboard@,
        }
    }
}

impl Duplicate for DashboardTemplate {
    fn dup(&self) -> (r: DashboardTemplate) {
        DashboardTemplate {
            id: self.id.clone(),
            name: self.name.clone(),
            description: self.description.clone(),
            category: self.category,
            dashboard: self.dashboard.dup(),
        }
    }
}

impl Keyed for DashboardTemplate {
    open spec fn key_view(&self) -> Seq<char> {
        self.id@
    }

    fn key_str(&self) -> (r: &str) {
        self.id.as_str()
    }
}

/// A value shown by a widget, with its display form.
pub struct MetricValue {
    pub metric_type: MetricType,
    pub value_bits: u64,
    pub formatted_value: String,
    pub timestamp: u64,
}

/// The plain content of a shown value.
pub struct MetricValueView {
    pub metric_type: MetricType,
    pub value_bits: u64,
    pub formatted_value: Seq<char>,
    pub timestamp: u64,
}

impl View for MetricValue {
    type V = MetricValueView;

    open spec fn view(&self) -> MetricValueView {
        MetricValueView {
            metric_type: self.metric_type,
            value_bits: self.value_bits,
            formatted_value: self.formatted_value@,
            timestamp: self.timestamp,
        }
    }
}

impl Duplicate for MetricValue {
    fn dup(&self) -> (r: MetricValue) {
        MetricValue {
            metric_type: self.metric_type,
            value_bits: self.value_bits,
            formatted_value: self.formatted_value.clone(),
            timestamp: self.timestamp,
        }
    }
}

/// One series of a chart.
pub struct ChartDataset {
    pub label: String,
    pub data_bits: Vec<u64>,
    pub color: String,
}

/// The plain content of a chart series.
pub struct DatasetView {
    pub label: Seq<char>,
    pub data_bits: Seq<u64>,
    pub color: Seq<char>,
}

impl View for ChartDataset {
    type V = DatasetView;

    open spec fn view(&self) -> DatasetView {
        DatasetView { label: self.label@, data_bits: self.data_bits@, color: self.color@ }
    }
}

impl Duplicate for ChartDataset {
    fn dup(&self) -> (r: ChartDataset) {
        ChartDataset { label: self.label.clone(), data_bits: copy_vec(&self.data_bits), color: self.color.clone() }
    }
}

/// The labels and series of a chart.
pub struct ChartData {
    pub labels: Vec<String>,
    pub datasets: Vec<ChartDataset>,
}

/// The plain content of a chart.
pub struct ChartView {
    pub labels: Seq<Seq<char>>,
    pub datasets: Seq<DatasetView>,
}

impl View for ChartData {
    type V = ChartView;

    open spec fn view(&self) -> ChartView {
        ChartView { labels: strings_view(self.labels@), datasets: views(self.datasets@) }
    }
}

impl Duplicate for ChartData {
    fn dup(&self) -> (r: ChartData) {
        ChartData { labels: copy_strings(&self.labels), datasets: dup_vec(&self.datasets) }
    }
}

/// Summary figures of a widget, as IEEE double bit patterns.
#[derive(Clone, Copy, PartialEq, Eq, Structural, Debug)]
pub struct WidgetStats {
    pub current_bits: u64,
    pub min_bits: u64,
    pub max_bits: u64,
    pub avg_bits: u64,
    pub change_percent_bits: u64,
}

/// What one widget showed.
pub struct WidgetData {
    pub widget_id: String,
    pub values: Vec<MetricValue>,
    pub chart_data: Option<ChartData>,
    pub stats: WidgetStats,
}

/// The plain content of what a widget showed.
pub struct WidgetDataView {
    pub widget_id: Seq<char>,
    pub values: Seq<MetricValueView>,
    pub chart_data: Option<ChartView>,
    pub stats: WidgetStats,
}

impl View for WidgetData {
    type V = WidgetDataView;

    open spec fn view(&self) -> WidgetDataView {
        WidgetDataView {
            widget_id: self.widget_id@,
            values: views(self.values@),
            chart_data: match self.chart_data {
                Some(c) => Some(c@),
                None => None,
            },
            stats: self.stats,
        }
    }
}

impl Duplicate for WidgetData {
    fn dup(&self) -> (r: WidgetData) {
        WidgetData {
            widget_id: self.widget_id.clone(),
            values: dup_vec(&self.values),
            chart_data: match &self.chart_data {
                Some(c) => Some(c.dup()),
                None => None,
            },
            stats: self.stats,
        }
    }
}

/// An alert shown on a dashboard.
pub struct AlertSummary {
    pub id: String,
    pub level: AlertLevel,
    pub metric_type: MetricType,
    pub message: String,
    pub value_bits: u64,
    pub timestamp: u64,
}

/// The plain content of a shown alert.
pub struct AlertSummaryView {
    pub id: Seq<char>,
    pub level: AlertLevel,
    pub metric_type: MetricType,
    pub message: Seq<char>,
    pub value_bits: u64,
    pub timestamp: u64,
}

impl View for AlertSummary {
    type V = AlertSummaryView;

    open spec fn view(&self) -> AlertSummaryView {
        AlertSummaryView {
            id: self.id@,
            level: self.level,
            metric_type: self.metric_type,
            message: self.message@,
            value_bits: self.value_bits,
            timestamp: self.timestamp,
        }
    }
}

impl Duplicate for AlertSummary {
    fn dup(&self) -> (r: AlertSummary) {
        AlertSummary {
            id: self.id.clone(),
            level: self.level,
            metric_type: self.metric_type,
            message: self.message.clone(),
            value_bits: self.value_bits,
            timestamp: self.timestamp,
        }
    }
}

/// What a dashboard showed at one moment.
pub struct DashboardSnapshot {
    pub dashboard_id: String,
    pub timestamp: u64,
    pub widget_data: Vec<WidgetData>,
    pub active_alerts: Vec<AlertSummary>,
}

/// The plain content of a snapshot.
pub struct SnapshotView {
    pub dashboard_id: Seq<char>,
    pub timestamp: u64,
    pub widget_data: Seq<WidgetDataView>,
    pub active_alerts: Seq<AlertSummaryView>,
}

impl View for DashboardSnapshot {
    type V = SnapshotView;

    open spec fn view(&self) -> SnapshotView {
        SnapshotView {
            dashboard_id: self.dashboard_id@,
            timestamp: self.timestamp,
            widget_data: views(self.widget_data@),
            active_alerts: views(self.active_alerts@),
        }
    }
}

impl Duplicate for DashboardSnapshot {
    fn dup(&self) -> (r: DashboardSnapshot) {
        DashboardSnapshot {
            dashboard_id: self.dashboard_id.clone(),
            timestamp: self.timestamp,
            widget_data: dup_vec(&self.widget_data),
            active_alerts: dup_vec(&self.active_alerts),
        }
    }
}

// ---------------------------------------------------------------------------
// Built-in templates
// ---------------------------------------------------------------------------

/// 80.0 as an IEEE double bit pattern.
pub const EIGHTY_BITS: u64 = 0x4054_0000_0000_0000;
/// 95.0 as an IEEE double bit pattern.
pub const NINETY_FIVE_BITS: u64 = 0x4057_C000_0000_0000;

/// A widget metric with its colour and optional aggregation.
pub open spec fn metric_spec(m: MetricType, label: Seq<char>, color: Seq<char>, aggregation: Option<Seq<char>>) -> WidgetMetricView {
    WidgetMetricView { metric_type: m, label, color: Some(color), aggregation }
}

/// The warning (80) and critical (95) marks of the percentage charts.
pub open spec fn percent_thresholds() -> Seq<ThresholdView> {
    seq![
        ThresholdView { value_bits: EIGHTY_BITS, color: "#FFC107"@, label: "Warning"@ },
        ThresholdView { value_bits: NINETY_FIVE_BITS, color: "#F44336"@, label: "Critical"@ },
    ]
}

/// Alerts above 80 (warning) and 95 (critical).
pub open spec fn percent_alert() -> AlertConfigView {
    AlertConfigView {
        enabled: true,
        warning_threshold_bits: Some(EIGHTY_BITS),
        critical_threshold_bits: Some(NINETY_FIVE_BITS),
        comparison_operator: "greater_than"@,
    }
}

/// Display settings with legend, grid and axis labels all on or all off.
pub open spec fn viz_spec(t: WidgetType, decorated: bool, scheme: Option<Seq<char>>, thresholds: Option<Seq<ThresholdView>>, range: u64, animated: bool) -> VisualizationView {
    VisualizationView {
        visualization_type: t,
        show_legend: decorated,
        show_grid: decorated,
        show_axis_labels: decorated,
        color_scheme: scheme,
        thresholds,
        time_range_secs: range,
        animations_enabled: animated,
    }
}

/// The standard six-by-four widget size, at least four by three.
pub open spec fn chart_size() -> WidgetSize {
    WidgetSize { width: 6, height: 4, min_width: 4, min_height: 3 }
}

/// A percentage chart of one metric, with the 80/95 marks and alerts.
pub open spec fn percent_chart_spec(id: Seq<char>, t: WidgetType, title: Seq<char>, metric: WidgetMetricView) -> WidgetView {
    WidgetView {
        id,
        widget_type: t,
        title,
        metrics: seq![metric],
        visualization: viz_spec(t, true, Some("default"@), Some(percent_thresholds()), 300, true),
        size: chart_size(),
        refresh_interval_secs: 5,
        alert_config: Some(percent_alert()),
    }
}

/// The CPU chart of the overview.
pub open spec fn cpu_widget_spec() -> WidgetView {
    percent_chart_spec("cpu_chart"@, WidgetType::LineChart, "CPU Usage"@, metric_spec(MetricType::CpuUsage, "CPU %"@, "#4CAF50"@, Some("avg"@)))
}

/// The memory chart of the overview.
pub open spec fn memory_widget_spec() -> WidgetView {
    percent_chart_spec("memory_chart"@, WidgetType::AreaChart, "Memory Usage"@, metric_spec(MetricType::MemoryPercent, "Memory %"@, "#2196F3"@, Some("avg"@)))
}

/// The quick-stats card of the overview.
pub open spec fn stats_widget_spec() -> WidgetView {
    WidgetView {
        id: "stats"@,
        widget_type: WidgetType::StatCard,
        title: "Quick Stats"@,
        metrics: seq![
            metric_spec(MetricType::CpuUsage, "CPU"@, "#4CAF50"@, Some("avg"@)),
            metric_spec(MetricType::MemoryPercent, "Memory"@, "#2196F3"@, Some("avg"@)),
            metric_spec(MetricType::Tps, "TPS"@, "#9C27B0"@, Some("avg"@)),
            metric_spec(MetricType::PlayerCount, "Players"@, "#FF9800"@, Some("max"@)),
        ],
        visualization: viz_spec(WidgetType::StatCard, false, None, None, 60, false),
        size: WidgetSize { width: 12, height: 2, min_width: 6, min_height: 2 },
        refresh_interval_secs: 5,
        alert_config: None,
    }
}

/// The alert list of the overview.
pub open spec fn alerts_widget_spec() -> WidgetView {
    WidgetView {
        id: "alerts"@,
        widget_type: WidgetType::AlertList,
        title: "Active Alerts"@,
        metrics: seq![],
        visualization: viz_spec(WidgetType::AlertList, false, None, None, 3600, true),
        size: chart_size(),
        refresh_interval_secs: 10,
        alert_config: None,
    }
}

/// The network chart of the overview.
pub open spec fn network_widget_spec() -> WidgetView {
    WidgetView {
        id: "network"@,
        widget_type: WidgetType::LineChart,
        title: "Network Traffic"@,
        metrics: seq![
            metric_spec(MetricType::NetworkRx, "Download"@, "#4CAF50"@, Some("sum"@)),
            metric_spec(MetricType::NetworkTx, "Upload"@, "#F44336"@, Some("sum"@)),
        ],
        visualization: viz_spec(WidgetType::LineChart, true, Some("default"@), None, 300, true),
        size: chart_size(),
        refresh_interval_secs: 5,
        alert_config: None,
    }
}

/// Where the overview places its widgets.
pub open spec fn overview_positions() -> Map<Seq<char>, WidgetPosition> {
    map![
        "stats"@ => WidgetPosition { x: 0, y: 0, width: 12, height: 2 },
        "cpu_chart"@ => WidgetPosition { x: 0, y: 2, width: 6, height: 4 },
        "memory_chart"@ => WidgetPosition { x: 6, y: 2, width: 6, height: 4 },
        "network"@ => WidgetPosition { x: 0, y: 6, width: 6, height: 4 },
        "alerts"@ => WidgetPosition { x: 6, y: 6, width: 6, height: 4 },
    ]
}

/// The overview template; its dashboard was made at `created` and last changed at `updated`.
pub open spec fn overview_template_spec(created: u64, updated: u64) -> TemplateView {
    TemplateView {
        id: "overview"@,
        name: "Overview Dashboard"@,
        description: "Standard server overview with CPU, memory, network, and alerts"@,
        category: DashboardCategory::Overview,
        dashboard: DashboardView {
            id: "overview"@,
            name: "Overview"@,
            description: "Server overview dashboard with key metrics"@,
            widgets: seq![stats_widget_spec(), cpu_widget_spec(), memory_widget_spec(), network_widget_spec(), alerts_widget_spec()],
            layout: LayoutView { columns: 12, rows: 11, widget_positions: overview_positions() },
            refresh_interval_secs: 5,
            is_default: true,
            created_at: created,
            updated_at: updated,
            created_by: "system"@,
        },
    }
}

/// The performance template; its dashboard was made at `created` and last changed at `updated`.
pub open spec fn performance_template_spec(created: u64, updated: u64) -> TemplateView {
    TemplateView {
        id: "performance"@,
        name: "Performance Dashboard"@,
        description: "Focus on server performance metrics"@,
        category: DashboardCategory::Performance,
        dashboard: DashboardView {
            id: "performance"@,
            name: "Performance"@,
            description: "Detailed performance metrics"@,
            widgets: seq![WidgetView {
                id: "perf"@,
                widget_type: WidgetType::LineChart,
                title: "Performance Metrics"@,
                metrics: seq![
                    metric_spec(MetricType::Tps, "TPS"@, "#4CAF50"@, None),
                    metric_spec(MetricType::CpuUsage, "CPU"@, "#2196F3"@, None),
                ],
                visualization: viz_spec(WidgetType::LineChart, true, None, None, 600, true),
                size: WidgetSize { width: 12, height: 6, min_width: 6, min_height: 4 },
                refresh_interval_secs: 5,
                alert_config: None,
            }],
            layout: LayoutView { columns: 12, rows: 6, widget_positions: Map::empty() },
            refresh_interval_secs: 5,
            is_default: false,
            created_at: created,
            updated_at: updated,
            created_by: "system"@,
        },
    }
}

/// A widget metric.
fn make_metric(m: MetricType, label: &str, color: &str, aggregation: Option<&str>) -> (r: WidgetMetric)
    ensures
        r@ == metric_spec(m, label@, color@, match aggregation { Some(a) => Some(a@), None => None }),
{
    WidgetMetric {
        metric_type: m,
        label: owned(label),
        color: Some(owned(color)),
        aggregation: match aggregation {
            Some(a) => Some(owned(a)),
            None => None,
        },
    }
}

/// Display settings with legend, grid and axis labels all on or all off.
fn make_viz(t: WidgetType, decorated: bool, scheme: Option<&str>, thresholds: Option<Vec<VisualizationThreshold>>, range: u64, animated: bool) -> (r: VisualizationConfig)
    ensures
        r@ == viz_spec(t, decorated, match scheme { Some(s) => Some(s@), None => None }, opt_views(thresholds), range, animated),
{
    VisualizationConfig {
        visualization_type: t,
        show_legend: decorated,
        show_grid: decorated,
        show_axis_labels: decorated,
        color_scheme: match scheme {
            Some(s) => Some(owned(s)),
            None => None,
        },
        thresholds,
        time_range_secs: range,
        animations_enabled: animated,
    }
}

/// The warning and critical marks of the percentage charts.
fn make_percent_thresholds() -> (r: Vec<VisualizationThreshold>)
    ensures
        views(r@) == percent_thresholds(),
{
    let r = vec![
        VisualizationThreshold { value_bits: EIGHTY_BITS, color: owned("#FFC107"), label: owned("Warning") },
        VisualizationThreshold { value_bits: NINETY_FIVE_BITS, color: owned("#F44336"), label: owned("Critical") },
    ];
    assert(views(r@) =~= percent_thresholds());
    r
}

/// A percentage chart of one metric, with the 80/95 marks and alerts.
fn make_percent_chart(id: &str, t: WidgetType, title: &str, metric: WidgetMetric) -> (w: Widget)
    ensures
        w@ == percent_chart_spec(id@, t, title@, metric@),
{
    let ghost mv = metric@;
    let metrics = vec![metric];
    assert(views(metrics@) =~= seq![mv]);
    Widget {
        id: owned(id),
        widget_type: t,
        title: owned(title),
        metrics,
        visualization: make_viz(t, true, Some("default"), Some(make_percent_thresholds()), 300, true),
        size: WidgetSize { width: 6, height: 4, min_width: 4, min_height: 3 },
        refresh_interval_secs: 5,
        alert_config: Some(WidgetAlertConfig {
            enabled: true,
            warning_threshold_bits: Some(EIGHTY_BITS),
            critical_threshold_bits: Some(NINETY_FIVE_BITS),
            comparison_operator: owned("greater_than"),
        }),
    }
}

/// The quick-stats card of the overview.
fn make_stats_widget() -> (w: Widget)
    ensures
        w@ == stats_widget_spec(),
{
    let metrics = vec![
        make_metric(MetricType::CpuUsage, "CPU", "#4CAF50", Some("avg")),
        make_metric(MetricType::MemoryPercent, "Memory", "#2196F3", Some("avg")),
        make_metric(MetricType::Tps, "TPS", "#9C27B0", Some("avg")),
        make_metric(MetricType::PlayerCount, "Players", "#FF9800", Some("max")),
    ];
    assert(views(metrics@) =~= stats_widget_spec().metrics);
    Widget {
        id: owned("stats"),
        widget_type: WidgetType::StatCard,
        title: owned("Quick Stats"),
        metrics,
        visualization: make_viz(WidgetType::StatCard, false, None, None, 60, false),
        size: WidgetSize { width: 12, height: 2, min_width: 6, min_height: 2 },
        refresh_interval_secs: 5,
        alert_config: None,
    }
}

/// The alert list of the overview.
fn make_alerts_widget() -> (w: Widget)
    ensures
        w@ == alerts_widget_spec(),
{
    let metrics: Vec<WidgetMetric> = Vec::new();
    assert(views(metrics@) =~= alerts_widget_spec().metrics);
    Widget {
        id: owned("alerts"),
        widget_type: WidgetType::AlertList,
        title: owned("Active Alerts"),
        metrics,
        visualization: make_viz(WidgetType::AlertList, false, None, None, 3600, true),
        size: WidgetSize { width: 6, height: 4, min_width: 4, min_height: 3 },
        refresh_interval_secs: 10,
        alert_config: None,
    }
}

/// The network chart of the overview.
fn make_network_widget() -> (w: Widget)
    ensures
        w@ == network_widget_spec(),
{
    let metrics = vec![
        make_metric(MetricType::NetworkRx, "Download", "#4CAF50", Some("sum")),
        make_metric(MetricType::NetworkTx, "Upload", "#F44336", Some("sum")),
    ];
    assert(views(metrics@) =~= network_widget_spec().metrics);
    Widget {
        id: owned("network"),
        widget_type: WidgetType::LineChart,
        title: owned("Network Traffic"),
        metrics,
        visualization: make_viz(WidgetType::LineChart, true, Some("default"), None, 300, true),
        size: WidgetSize { width: 6, height: 4, min_width: 4, min_height: 3 },
        refresh_interval_secs: 5,
        alert_config: None,
    }
}

/// Places a widget, replacing any earlier position of the same widget.
fn place(store: &mut Store<PlacedWidget>, id: &str, x: u32, y: u32, width: u32, height: u32)
    ensures
        positions(*final(store)) == positions(*old(store)).insert(id@, WidgetPosition { x, y, width, height }),
{
    let ghost before = store.map();
    let p = PlacedWidget { widget_id: owned(id), position: WidgetPosition { x, y, width, height } };
    let ghost pv = p;
    store.upsert(p);
    assert(positions(*store) =~= positions(*old(store)).insert(id@, WidgetPosition { x, y, width, height }));
}

impl DashboardManager {
/// The overview template: statistics, CPU, memory and network charts and the
/// alert list on a twelve-column grid.
pub fn create_overview_template() -> (t: DashboardTemplate)
    ensures
        t@ == overview_template_spec(t.dashboard.created_at, t.dashboard.updated_at),
{
    let cpu = make_percent_chart("cpu_chart", WidgetType::LineChart, "CPU Usage",
        make_metric(MetricType::CpuUsage, "CPU %", "#4CAF50", Some("avg")));
    let memory = make_percent_chart("memory_chart", WidgetType::AreaChart, "Memory Usage",
        make_metric(MetricType::MemoryPercent, "Memory %", "#2196F3", Some("avg")));
    let stats = make_stats_widget();
    let alerts = make_alerts_widget();
    let network = make_network_widget();

    let mut positions_store: Store<PlacedWidget> = Store::new();
    place(&mut positions_store, "stats", 0, 0, 12, 2);
    place(&mut positions_store, "cpu_chart", 0, 2, 6, 4);
    place(&mut positions_store, "memory_chart", 6, 2, 6, 4);
    place(&mut positions_store, "network", 0, 6, 6, 4);
    place(&mut positions_store, "alerts", 6, 6, 6, 4);
    assert(positions(positions_store) =~= overview_positions());

    let ghost wv = seq![stats@, cpu@, memory@, network@, alerts@];
    let widgets = vec![stats, cpu, memory, network, alerts];
    assert(views(widgets@) =~= wv);
    let created = now_millis_unsigned();
    let updated = now_millis_unsigned();
    let dashboard = Dashboard {
        id: owned("overview"),
        name: owned("Overview"),
        description: owned("Server overview dashboard with key metrics"),
        widgets,
        layout: DashboardLayout { columns: 12, rows: 11, widget_positions: positions_store },
        refresh_interval_secs: 5,
        is_default: true,
        created_at: created,
        updated_at: updated,
        created_by: owned("system"),
    };
    DashboardTemplate {
        id: owned("overview"),
        name: owned("Overview Dashboard"),
        description: owned("Standard server overview with CPU, memory, network, and alerts"),
        category: DashboardCategory::Overview,
        dashboard,
    }
}
}

/// The performance template: one chart of TPS and CPU.
fn performance_template() -> (t: DashboardTemplate)
    ensures
        t@ == performance_template_spec(t.dashboard.created_at, t.dashboard.updated_at),
{
    let metrics = vec![
        make_metric(MetricType::Tps, "TPS", "#4CAF50", None),
        make_metric(MetricType::CpuUsage, "CPU", "#2196F3", None),
    ];
    assert(views(metrics@) =~= performance_template_spec(0, 0).dashboard.widgets[0].metrics);
    let perf = Widget {
        id: owned("perf"),
        widget_type: WidgetType::LineChart,
        title: owned("Performance Metrics"),
        metrics,
        visualization: make_viz(WidgetType::LineChart, true, None, None, 600, true),
        size: WidgetSize { width: 12, height: 6, min_width: 6, min_height: 4 },
        refresh_interval_secs: 5,
        alert_config: None,
    };
    let ghost pv = perf@;
    let widgets = vec![perf];
    assert(views(widgets@) =~= seq![pv]);
    let positions_store: Store<PlacedWidget> = Store::new();
    assert(positions(positions_store) =~= Map::<Seq<char>, WidgetPosition>::empty());
    let created = now_millis_unsigned();
    let updated = now_millis_unsigned();
    let dashboard = Dashboard {
        id: owned("performance"),
        name: owned("Performance"),
        description: owned("Detailed performance metrics"),
        widgets,
        layout: DashboardLayout { columns: 12, rows: 6, widget_positions: positions_store },
        refresh_interval_secs: 5,
        is_default: false,
        created_at: created,
        updated_at: updated,
        created_by: owned("system"),
    };
    let t = DashboardTemplate {
        id: owned("performance"),
        name: owned("Performance Dashboard"),
        description: owned("Focus on server performance metrics"),
        category: DashboardCategory::Performance,
        dashboard,
    };
    assert(t@.dashboard.widgets =~= performance_template_spec(created, updated).dashboard.widgets);
    t
}

// ---------------------------------------------------------------------------
// The manager
// ---------------------------------------------------------------------------

/// The plain content of the records of a store, by key.
pub open spec fn view_map<V: Keyed + View>(s: Store<V>) -> Map<Seq<char>, V::V> {
    s.map().map_values(|v: V| v@)
}

/// `d` last changed at `t`.
pub open spec fn touched(d: DashboardView, t: u64) -> DashboardView {
    DashboardView { updated_at: t, ..d }
}

/// A new empty dashboard on a twelve-by-six grid, made at `t`.
pub open spec fn new_dashboard_spec(id: Seq<char>, name: Seq<char>, description: Seq<char>, created_by: Seq<char>, t: u64) -> DashboardView {
    DashboardView {
        id,
        name,
        description,
        widgets: seq![],
        layout: LayoutView { columns: 12, rows: 6, widget_positions: Map::empty() },
        refresh_interval_secs: 5,
        is_default: false,
        created_at: t,
        updated_at: t,
        created_by,
    }
}

/// `s` lists the records of `m` once each (in some order), each under its key.
pub open spec fn lists_dashboards(s: Seq<DashboardView>, m: Map<Seq<char>, DashboardView>) -> bool {
    &&& s.len() == m.dom().len()
    &&& forall|i: int| 0 <= i < s.len() ==> #[trigger] m.dom().contains(s[i].id) && m[s[i].id] == s[i]
    &&& forall|i: int, j: int| 0 <= i < s.len() && 0 <= j < s.len() && i != j ==> #[trigger] s[i].id != #[trigger] s[j].id
}

/// `s` lists the records of `m` once each (in some order), each under its key.
pub open spec fn lists_templates(s: Seq<TemplateView>, m: Map<Seq<char>, TemplateView>) -> bool {
    &&& s.len() == m.dom().len()
    &&& forall|i: int| 0 <= i < s.len() ==> #[trigger] m.dom().contains(s[i].id) && m[s[i].id] == s[i]
    &&& forall|i: int, j: int| 0 <= i < s.len() && 0 <= j < s.len() && i != j ==> #[trigger] s[i].id != #[trigger] s[j].id
}

/// The snapshots of `s` taken of dashboard `id`, in order.
pub open spec fn snapshots_of(s: Seq<SnapshotView>, id: Seq<char>) -> Seq<SnapshotView>
    decreases s.len(),
{
    if s.len() == 0 {
        seq![]
    } else if s.last().dashboard_id == id {
        snapshots_of(s.drop_last(), id).push(s.last())
    } else {
        snapshots_of(s.drop_last(), id)
    }
}

/// `d` with widgets `ws`.
pub open spec fn with_widgets(d: DashboardView, ws: Seq<WidgetView>) -> DashboardView {
    DashboardView { widgets: ws, ..d }
}

/// The widgets of `s` other than those with id `id`, in order.
pub open spec fn widgets_without(s: Seq<WidgetView>, id: Seq<char>) -> Seq<WidgetView>
    decreases s.len(),
{
    if s.len() == 0 {
        seq![]
    } else if s.last().id == id {
        widgets_without(s.drop_last(), id)
    } else {
        widgets_without(s.drop_last(), id).push(s.last())
    }
}

/// `d` without the widgets with id `id` and without that id's position.
pub open spec fn without_widget(d: DashboardView, id: Seq<char>) -> DashboardView {
    DashboardView {
        widgets: widgets_without(d.widgets, id),
        layout: LayoutView { widget_positions: d.layout.widget_positions.remove(id), ..d.layout },
        ..d
    }
}

/// Every dashboard of `m`, marked default exactly when its id is `id`.
pub open spec fn defaults_set(m: Map<Seq<char>, DashboardView>, id: Seq<char>) -> Map<Seq<char>, DashboardView> {
    Map::new(|k: Seq<char>| m.dom().contains(k), |k: Seq<char>| DashboardView { is_default: k == id, ..m[k] })
}

/// `d` is a copy of template dashboard `t` named `name`, made by `by` at its
/// creation time, not default, under a fresh id and with fresh widget ids.
pub open spec fn made_from(t: DashboardView, d: DashboardView, name: Seq<char>, by: Seq<char>) -> bool {
    &&& is_hyphenated_uuid(d.id)
    &&& d.widgets.len() == t.widgets.len()
    &&& forall|i: int| 0 <= i < d.widgets.len() ==>
            #[trigger] d.widgets[i] == WidgetView { id: d.widgets[i].id, ..t.widgets[i] } && is_hyphenated_uuid(d.widgets[i].id)
    &&& d == DashboardView {
            id: d.id,
            name,
            widgets: d.widgets,
            is_default: false,
            created_at: d.created_at,
            updated_at: d.created_at,
            created_by: by,
            ..t
        }
}

/// Dashboards and templates by id, and the newest snapshots up to a bound.
pub struct DashboardManager {
    dashboards: Store<Dashboard>,
    templates: Store<DashboardTemplate>,
    snapshots: Vec<DashboardSnapshot>,
    max_snapshots: usize,
}

impl DashboardManager {
    /// The dashboards by id.
    pub closed spec fn dashboards(&self) -> Map<Seq<char>, DashboardView> {
        view_map(self.dashboards)
    }

    /// The templates by id.
    pub closed spec fn templates(&self) -> Map<Seq<char>, TemplateView> {
        view_map(self.templates)
    }

    /// The recorded snapshots, oldest first.
    pub closed spec fn snapshots(&self) -> Seq<SnapshotView> {
        views(self.snapshots@)
    }

    /// How many snapshots are kept.
    pub closed spec fn snapshot_bound(&self) -> usize {
        self.max_snapshots
    }

    /// Each dashboard and template is stored under its own id.
    pub proof fn lemma_keys(&self)
        ensures
            forall|k: Seq<char>| #[trigger] self.dashboards().dom().contains(k) ==> self.dashboards()[k].id == k,
            forall|k: Seq<char>| #[trigger] self.templates().dom().contains(k) ==> self.templates()[k].id == k,
    {
        lemma_store_keys(self.dashboards);
        lemma_store_keys(self.templates);
    }

    /// No dashboards, templates or snapshots; up to `max_snapshots` snapshots are kept.
    pub fn new(max_snapshots: usize) -> (m: DashboardManager)
        ensures
            m.dashboards() == Map::<Seq<char>, DashboardView>::empty(),
            m.templates() == Map::<Seq<char>, TemplateView>::empty(),
            m.snapshots() == Seq::<SnapshotView>::empty(),
            m.snapshot_bound() == max_snapshots,
    {
        let m = DashboardManager { dashboards: Store::new(), templates: Store::new(), snapshots: Vec::new(), max_snapshots };
        assert(m.dashboards() =~= Map::<Seq<char>, DashboardView>::empty());
        assert(m.templates() =~= Map::<Seq<char>, TemplateView>::empty());
        assert(m.snapshots() =~= Seq::<SnapshotView>::empty());
        m
    }

    /// An empty manager keeping up to a hundred snapshots.
    pub fn with_default() -> (m: DashboardManager)
        ensures
            m.dashboards() == Map::<Seq<char>, DashboardView>::empty(),
            m.templates() == Map::<Seq<char>, TemplateView>::empty(),
            m.snapshots() == Seq::<SnapshotView>::empty(),
            m.snapshot_bound() == 100,
    {
        DashboardManager::new(100)
    }

    /// How many snapshots are kept.
    pub fn max_snapshots(&self) -> (n: usize)
        ensures
            n == self.snapshot_bound(),
    {
        self.max_snapshots
    }

    /// Makes an empty dashboard with a fresh id, stores it and returns a copy.
    pub fn create_dashboard(&mut self, name: &str, description: &str, created_by: &str) -> (d: Dashboard)
        ensures
            is_hyphenated_uuid(d@.id),
            d@ == new_dashboard_spec(d@.id, name@, description@, created_by@, d@.created_at),
            final(self).dashboards() == old(self).dashboards().insert(d@.id, d@),
            final(self).templates() == old(self).templates(),
            final(self).snapshots() == old(self).snapshots(),
            final(self).snapshot_bound() == old(self).snapshot_bound(),
    {
        let now = now_millis_unsigned();
        let positions_store: Store<PlacedWidget> = Store::new();
        assert(positions(positions_store) =~= Map::<Seq<char>, WidgetPosition>::empty());
        let widgets: Vec<Widget> = Vec::new();
        assert(views(widgets@) =~= Seq::<WidgetView>::empty());
        let d = Dashboard {
            id: new_uuid_string(),
            name: owned(name),
            description: owned(description),
            widgets,
            layout: DashboardLayout { columns: 12, rows: 6, widget_positions: positions_store },
            refresh_interval_secs: 5,
            is_default: false,
            created_at: now,
            updated_at: now,
            created_by: owned(created_by),
        };
        let copy = d.dup();
        let ghost dv = d@;
        self.dashboards.upsert(d);
        assert(self.dashboards() =~= old(self).dashboards().insert(dv.id, dv));
        copy
    }

    /// A copy of the dashboard with id `id`, if any.
    pub fn get_dashboard(&self, id: &str) -> (r: Option<Dashboard>)
        ensures
            match r {
                Some(d) => self.dashboards().dom().contains(id@) && d@ == self.dashboards()[id@],
                None => !self.dashboards().dom().contains(id@),
            },
    {
        match self.dashboards.get(id) {
            Some(d) => Some(d.dup()),
            None => None,
        }
    }

    /// Copies of all dashboards.
    pub fn get_all_dashboards(&self) -> (r: Vec<Dashboard>)
        ensures
            lists_dashboards(views(r@), self.dashboards()),
    {
        self.dashboards.facts();
        let items = self.dashboards.as_vec();
        let n = items.len();
        let mut r: Vec<Dashboard> = Vec::new();
        let mut i: usize = 0;
        while i < n
            invariant
                n == items@.len(),
                items@ == self.dashboards.items(),
                i <= n,
                views(r@) == views(items@).subrange(0, i as int),
            decreases n - i,
        {
            let ghost before = views(r@);
            r.push(items[i].dup());
            assert(views(r@) =~= before.push(items@[i as int]@));
            i = i + 1;
            assert(views(r@) =~= views(items@).subrange(0, i as int));
        }
        assert(views(items@).subrange(0, n as int) =~= views(items@));
        proof {
            let s = views(r@);
            assert(self.dashboards().dom() =~= self.dashboards.map().dom());
            assert forall|i: int| 0 <= i < s.len() implies #[trigger] self.dashboards().dom().contains(s[i].id) && self.dashboards()[s[i].id] == s[i] by {
                assert(self.dashboards.map().dom().contains(items@[i].key_view()));
            }
            assert forall|i: int, j: int| 0 <= i < s.len() && 0 <= j < s.len() && i != j implies #[trigger] s[i].id != #[trigger] s[j].id by {
                assert(items@[i].key_view() != items@[j].key_view());
            }
        }
        r
    }

    /// Replaces the stored dashboard with the same id by `dashboard`, stamped
    /// with the current time; fails if no dashboard has that id.
    pub fn update_dashboard(&mut self, dashboard: Dashboard) -> (r: Result<(), String>)
        ensures
            match r {
                Ok(()) => old(self).dashboards().dom().contains(dashboard.id@)
                    && final(self).dashboards() == old(self).dashboards().insert(dashboard.id@,
                        touched(dashboard@, final(self).dashboards()[dashboard.id@].updated_at)),
                Err(e) => !old(self).dashboards().dom().contains(dashboard.id@) && e@ == "Dashboard not found"@
                    && final(self).dashboards() == old(self).dashboards(),
            },
            final(self).templates() == old(self).templates(),
            final(self).snapshots() == old(self).snapshots(),
            final(self).snapshot_bound() == old(self).snapshot_bound(),
    {
        if self.dashboards.find(dashboard.id.as_str()).is_none() {
            return Err(owned("Dashboard not found"));
        }
        let mut updated = dashboard;
        updated.updated_at = now_millis_unsigned();
        let ghost uv = updated@;
        self.dashboards.upsert(updated);
        assert(self.dashboards() =~= old(self).dashboards().insert(uv.id, uv));
        Ok(())
    }

    /// Takes out the dashboard with id `id`; fails if there is none.
    pub fn delete_dashboard(&mut self, id: &str) -> (r: Result<Dashboard, String>)
        ensures
            match r {
                Ok(d) => old(self).dashboards().dom().contains(id@) && d@ == old(self).dashboards()[id@]
                    && final(self).dashboards() == old(self).dashboards().remove(id@),
                Err(e) => !old(self).dashboards().dom().contains(id@) && e@ == "Dashboard not found"@
                    && final(self).dashboards() == old(self).dashboards(),
            },
            final(self).templates() == old(self).templates(),
            final(self).snapshots() == old(self).snapshots(),
            final(self).snapshot_bound() == old(self).snapshot_bound(),
    {
        match self.dashboards.remove(id) {
            Some(d) => {
                assert(self.dashboards() =~= old(self).dashboards().remove(id@));
                Ok(d)
            }
            None => Err(owned("Dashboard not found")),
        }
    }

    /// Appends `widget`, under a fresh id, to the dashboard with id
    /// `dashboard_id`, stamps the dashboard and returns a copy of it.
    pub fn add_widget(&mut self, dashboard_id: &str, widget: Widget) -> (r: Result<Dashboard, String>)
        ensures
            match r {
                Ok(d) => old(self).dashboards().dom().contains(dashboard_id@)
                    && d@.widgets.len() > 0
                    && is_hyphenated_uuid(d@.widgets.last().id)
                    && d@ == touched(with_widgets(old(self).dashboards()[dashboard_id@],
                        old(self).dashboards()[dashboard_id@].widgets.push((WidgetView { id: d@.widgets.last().id, ..widget@ }))), d@.updated_at)
                    && final(self).dashboards() == old(self).dashboards().insert(dashboard_id@, d@),
                Err(e) => !old(self).dashboards().dom().contains(dashboard_id@) && e@ == "Dashboard not found"@
                    && final(self).dashboards() == old(self).dashboards(),
            },
            final(self).templates() == old(self).templates(),
            final(self).snapshots() == old(self).snapshots(),
            final(self).snapshot_bound() == old(self).snapshot_bound(),
    {
        proof { self.lemma_keys(); }
        let mut d = match self.dashboards.get(dashboard_id) {
            Some(x) => x.dup(),
            None => return Err(owned("Dashboard not found")),
        };
        let mut w = widget;
        w.id = new_uuid_string();
        let ghost wv = w@;
        let ghost before = views(d.widgets@);
        d.widgets.push(w);
        assert(views(d.widgets@) =~= before.push(wv));
        d.updated_at = now_millis_unsigned();
        let copy = d.dup();
        let ghost dv = d@;
        self.dashboards.upsert(d);
        assert(self.dashboards() =~= old(self).dashboards().insert(dashboard_id@, dv));
        Ok(copy)
    }

    /// Drops every widget with id `widget_id` and its position from the
    /// dashboard with id `dashboard_id`, stamps the dashboard and returns a copy.
    pub fn remove_widget(&mut self, dashboard_id: &str, widget_id: &str) -> (r: Result<Dashboard, String>)
        ensures
            match r {
                Ok(d) => old(self).dashboards().dom().contains(dashboard_id@)
                    && d@ == touched(without_widget(old(self).dashboards()[dashboard_id@], widget_id@), d@.updated_at)
                    && final(self).dashboards() == old(self).dashboards().insert(dashboard_id@, d@),
                Err(e) => !old(self).dashboards().dom().contains(dashboard_id@) && e@ == "Dashboard not found"@
                    && final(self).dashboards() == old(self).dashboards(),
            },
            final(self).templates() == old(self).templates(),
            final(self).snapshots() == old(self).snapshots(),
            final(self).snapshot_bound() == old(self).snapshot_bound(),
    {
        proof { self.lemma_keys(); }
        let mut d = match self.dashboards.get(dashboard_id) {
            Some(x) => x.dup(),
            None => return Err(owned("Dashboard not found")),
        };
        let ghost s = views(d.widgets@);
        let mut kept: Vec<Widget> = Vec::new();
        let n = d.widgets.len();
        let mut i: usize = 0;
        while i < n
            invariant
                n == d.widgets@.len(),
                s == views(d.widgets@),
                i <= n,
                views(kept@) == widgets_without(s.subrange(0, i as int), widget_id@),
            decreases n - i,
        {
            proof { assert(s.subrange(0, i + 1).drop_last() =~= s.subrange(0, i as int)); }
            if !str_eq(d.widgets[i].id.as_str(), widget_id) {
                let ghost before = views(kept@);
                kept.push(d.widgets[i].dup());
                assert(views(kept@) =~= before.push(s[i as int]));
            }
            i = i + 1;
        }
        proof { assert(s.subrange(0, n as int) =~= s); }
        d.widgets = kept;
        let ghost before_pos = positions(d.layout.widget_positions);
        let _ = d.layout.widget_positions.remove(widget_id);
        assert(positions(d.layout.widget_positions) =~= before_pos.remove(widget_id@));
        d.updated_at = now_millis_unsigned();
        let copy = d.dup();
        let ghost dv = d@;
        self.dashboards.upsert(d);
        assert(self.dashboards() =~= old(self).dashboards().insert(dashboard_id@, dv));
        Ok(copy)
    }

    /// Replaces the first widget with the id of `widget` in the dashboard with
    /// id `dashboard_id`, stamps the dashboard and returns a copy of `widget`.
    pub fn update_widget(&mut self, dashboard_id: &str, widget: Widget) -> (r: Result<Widget, String>)
        ensures
            match r {
                Ok(w) => old(self).dashboards().dom().contains(dashboard_id@) && w@ == widget@
                    && exists|i: int| #![trigger old(self).dashboards()[dashboard_id@].widgets[i]]
                        0 <= i < old(self).dashboards()[dashboard_id@].widgets.len()
                        && old(self).dashboards()[dashboard_id@].widgets[i].id == widget.id@
                        && (forall|j: int| 0 <= j < i ==> #[trigger] old(self).dashboards()[dashboard_id@].widgets[j].id != widget.id@)
                        && final(self).dashboards() == old(self).dashboards().insert(dashboard_id@,
                            touched(with_widgets(old(self).dashboards()[dashboard_id@], old(self).dashboards()[dashboard_id@].widgets.update(i, widget@)),
                                final(self).dashboards()[dashboard_id@].updated_at)),
                Err(e) => final(self).dashboards() == old(self).dashboards() && (
                    if old(self).dashboards().dom().contains(dashboard_id@) {
                        e@ == "Widget not found"@
                            && forall|i: int| 0 <= i < old(self).dashboards()[dashboard_id@].widgets.len()
                                ==> #[trigger] old(self).dashboards()[dashboard_id@].widgets[i].id != widget.id@
                    } else {
                        e@ == "Dashboard not found"@
                    }),
            },
            final(self).templates() == old(self).templates(),
            final(self).snapshots() == old(self).snapshots(),
            final(self).snapshot_bound() == old(self).snapshot_bound(),
    {
        proof { self.lemma_keys(); }
        let mut d = match self.dashboards.get(dashboard_id) {
            Some(x) => x.dup(),
            None => return Err(owned("Dashboard not found")),
        };
        let ghost s = views(d.widgets@);
        let n = d.widgets.len();
        let mut i: usize = 0;
        while i < n
            invariant
                n == d.widgets@.len(),
                s == views(d.widgets@),
                i <= n,
                forall|j: int| 0 <= j < i ==> #[trigger] s[j].id != widget.id@,
            ensures
                i <= n,
                forall|j: int| 0 <= j < i ==> #[trigger] s[j].id != widget.id@,
                i < n ==> s[i as int].id == widget.id@,
            decreases n - i,
        {
            if str_eq(d.widgets[i].id.as_str(), widget.id.as_str()) {
                break;
            }
            i = i + 1;
        }
        if i == n {
            return Err(owned("Widget not found"));
        }
        let copy = widget.dup();
        let ghost wv = widget@;
        let mut ws: Vec<Widget> = Vec::new();
        std::mem::swap(&mut ws, &mut d.widgets);
        ws.set(i, widget);
        assert(views(ws@) =~= s.update(i as int, wv));
        d.widgets = ws;
        d.updated_at = now_millis_unsigned();
        let ghost dv = d@;
        self.dashboards.upsert(d);
        assert(self.dashboards() =~= old(self).dashboards().insert(dashboard_id@, dv));
        assert(s[i as int].id == widget.id@);
        Ok(copy)
    }

    /// Marks the dashboard with id `id` as the default and every other one as not.
    pub fn set_default_dashboard(&mut self, id: &str) -> (r: Result<(), String>)
        ensures
            r is Ok,
            final(self).dashboards() == defaults_set(old(self).dashboards(), id@),
            final(self).templates() == old(self).templates(),
            final(self).snapshots() == old(self).snapshots(),
            final(self).snapshot_bound() == old(self).snapshot_bound(),
    {
        self.dashboards.facts();
        let items = self.dashboards.as_vec();
        let n = items.len();
        let mut v: Vec<Dashboard> = Vec::new();
        let mut i: usize = 0;
        while i < n
            invariant
                n == items@.len(),
                i <= n,
                v@.len() == i,
                forall|j: int| 0 <= j < i ==> #[trigger] v@[j]@ == (DashboardView { is_default: items@[j].id@ == id@, ..items@[j]@ }),
            decreases n - i,
        {
            let mut d = items[i].dup();
            d.is_default = str_eq(d.id.as_str(), id);
            v.push(d);
            i = i + 1;
        }
        let ghost old_items = items@;
        proof {
            assert forall|a: int, b: int| 0 <= a < v@.len() && 0 <= b < v@.len() && a != b implies #[trigger] v@[a].key_view() != #[trigger] v@[b].key_view() by {
                assert(v@[a]@.id == old_items[a]@.id);
                assert(v@[b]@.id == old_items[b]@.id);
                assert(old_items[a].key_view() != old_items[b].key_view());
            }
        }
        let store = Store::from_vec(v);
        store.facts();
        proof {
            let om = old(self).dashboards.map();
            let nm = store.map();
            assert forall|k: Seq<char>| #[trigger] nm.dom().contains(k) <==> om.dom().contains(k) by {
                if nm.dom().contains(k) {
                    let j = choose|j: int| 0 <= j < store.items().len() && #[trigger] store.items()[j].key_view() == k;
                    assert(store.items()[j]@.id == old_items[j]@.id);
                    assert(old_items[j].key_view() == k);
                }
                if om.dom().contains(k) {
                    let j = choose|j: int| 0 <= j < old_items.len() && #[trigger] old_items[j].key_view() == k;
                    assert(store.items()[j]@.id == old_items[j]@.id);
                    assert(store.items()[j].key_view() == k);
                }
            }
            assert forall|k: Seq<char>| #[trigger] nm.dom().contains(k) implies nm[k]@ == (DashboardView { is_default: k == id@, ..om[k]@ }) by {
                let j = choose|j: int| 0 <= j < store.items().len() && #[trigger] store.items()[j].key_view() == k;
                assert(store.items()[j]@.id == old_items[j]@.id);
                assert(old_items[j].key_view() == k);
                assert(om[old_items[j].key_view()] == old_items[j]);
                assert(nm[store.items()[j].key_view()] == store.items()[j]);
            }
        }
        self.dashboards = store;
        assert(self.dashboards() =~= defaults_set(old(self).dashboards(), id@));
        Ok(())
    }

    /// A copy of a dashboard marked default, if any.
    pub fn get_default_dashboard(&self) -> (r: Option<Dashboard>)
        ensures
            match r {
                Some(d) => self.dashboards().dom().contains(d@.id) && self.dashboards()[d@.id] == d@ && d@.is_default,
                None => forall|k: Seq<char>| #[trigger] self.dashboards().dom().contains(k) ==> !self.dashboards()[k].is_default,
            },
    {
        self.dashboards.facts();
        let items = self.dashboards.as_vec();
        let n = items.len();
        let mut i: usize = 0;
        while i < n
            invariant
                n == items@.len(),
                items@ == self.dashboards.items(),
                forall|j: int| 0 <= j < items@.len() ==> #[trigger] self.dashboards.map().dom().contains(items@[j].key_view())
                    && self.dashboards.map()[items@[j].key_view()] == items@[j],
                i <= n,
                forall|j: int| 0 <= j < i ==> !(#[trigger] items@[j]).is_default,
            decreases n - i,
        {
            if items[i].is_default {
                assert(self.dashboards.map().dom().contains(items@[i as int].key_view()));
                return Some(items[i].dup());
            }
            i = i + 1;
        }
        proof {
            assert forall|k: Seq<char>| #[trigger] self.dashboards().dom().contains(k) implies !self.dashboards()[k].is_default by {
                let j = choose|j: int| 0 <= j < items@.len() && #[trigger] items@[j].key_view() == k;
                assert(self.dashboards.map()[items@[j].key_view()] == items@[j]);
            }
        }
        None
    }

    /// Stores a copy of the dashboard of template `template_id` under a fresh id,
    /// with name `name`, fresh widget ids, not default, made now by
    /// `created_by`, and returns a copy; fails if there is no such template.
    pub fn create_from_template(&mut self, template_id: &str, name: &str, created_by: &str) -> (r: Result<Dashboard, String>)
        ensures
            match r {
                Ok(d) => old(self).templates().dom().contains(template_id@)
                    && made_from(old(self).templates()[template_id@].dashboard, d@, name@, created_by@)
                    && final(self).dashboards() == old(self).dashboards().insert(d@.id, d@),
                Err(e) => !old(self).templates().dom().contains(template_id@) && e@ == "Template not found"@
                    && final(self).dashboards() == old(self).dashboards(),
            },
            final(self).templates() == old(self).templates(),
            final(self).snapshots() == old(self).snapshots(),
            final(self).snapshot_bound() == old(self).snapshot_bound(),
    {
        let mut d = match self.templates.get(template_id) {
            Some(t) => t.dashboard.dup(),
            None => return Err(owned("Template not found")),
        };
        let ghost tv = d@;
        let n = d.widgets.len();
        let mut ws: Vec<Widget> = Vec::new();
        let mut i: usize = 0;
        while i < n
            invariant
                n == d.widgets@.len(),
                views(d.widgets@) == tv.widgets,
                i <= n,
                ws@.len() == i,
                forall|j: int| 0 <= j < i ==> #[trigger] ws@[j]@ == (WidgetView { id: ws@[j]@.id, ..tv.widgets[j] }) && is_hyphenated_uuid(ws@[j]@.id),
            decreases n - i,
        {
            let mut w = d.widgets[i].dup();
            w.id = new_uuid_string();
            ws.push(w);
            i = i + 1;
        }
        d.widgets = ws;
        d.id = new_uuid_string();
        d.name = owned(name);
        d.is_default = false;
        let now = now_millis_unsigned();
        d.created_at = now;
        d.updated_at = now;
        d.created_by = owned(created_by);
        let copy = d.dup();
        let ghost dv = d@;
        self.dashboards.upsert(d);
        assert(self.dashboards() =~= old(self).dashboards().insert(dv.id, dv));
        Ok(copy)
    }

    /// Stores `template` under its id, replacing any template with that id.
    pub fn register_template(&mut self, template: DashboardTemplate)
        ensures
            final(self).templates() == old(self).templates().insert(template.id@, template@),
            final(self).dashboards() == old(self).dashboards(),
            final(self).snapshots() == old(self).snapshots(),
            final(self).snapshot_bound() == old(self).snapshot_bound(),
    {
        let ghost tv = template@;
        self.templates.upsert(template);
        assert(self.templates() =~= old(self).templates().insert(tv.id, tv));
    }

    /// Copies of all templates.
    pub fn get_all_templates(&self) -> (r: Vec<DashboardTemplate>)
        ensures
            lists_templates(views(r@), self.templates()),
    {
        self.templates.facts();
        let items = self.templates.as_vec();
        let n = items.len();
        let mut r: Vec<DashboardTemplate> = Vec::new();
        let mut i: usize = 0;
        while i < n
            invariant
                n == items@.len(),
                items@ == self.templates.items(),
                i <= n,
                views(r@) == views(items@).subrange(0, i as int),
            decreases n - i,
        {
            let ghost before = views(r@);
            r.push(items[i].dup());
            assert(views(r@) =~= before.push(items@[i as int]@));
            i = i + 1;
            assert(views(r@) =~= views(items@).subrange(0, i as int));
        }
        assert(views(items@).subrange(0, n as int) =~= views(items@));
        proof {
            let s = views(r@);
            assert(self.templates().dom() =~= self.templates.map().dom());
            assert forall|i: int| 0 <= i < s.len() implies #[trigger] self.templates().dom().contains(s[i].id) && self.templates()[s[i].id] == s[i] by {
                assert(self.templates.map().dom().contains(items@[i].key_view()));
            }
            assert forall|i: int, j: int| 0 <= i < s.len() && 0 <= j < s.len() && i != j implies #[trigger] s[i].id != #[trigger] s[j].id by {
                assert(items@[i].key_view() != items@[j].key_view());
            }
        }
        r
    }

    /// Records `snapshot`, first dropping the oldest one when the bound is reached.
    pub fn record_snapshot(&mut self, snapshot: DashboardSnapshot)
        ensures
            final(self).snapshots() == bounded_push(old(self).snapshots(), old(self).snapshot_bound(), snapshot@),
            final(self).dashboards() == old(self).dashboards(),
            final(self).templates() == old(self).templates(),
            final(self).snapshot_bound() == old(self).snapshot_bound(),
    {
        let ghost before = self.snapshots();
        let ghost sv = snapshot@;
        if self.snapshots.len() >= self.max_snapshots && self.snapshots.len() > 0 {
            let _ = self.snapshots.remove(0);
            assert(self.snapshots() =~= before.drop_first());
        }
        let ghost mid = self.snapshots();
        self.snapshots.push(snapshot);
        assert(self.snapshots() =~= mid.push(sv));
    }

    /// Copies of the newest `limit` snapshots of dashboard `dashboard_id`, newest first.
    pub fn get_snapshot_history(&self, dashboard_id: &str, limit: usize) -> (r: Vec<DashboardSnapshot>)
        ensures
            views(r@) == newest(snapshots_of(self.snapshots(), dashboard_id@), limit as nat),
    {
        let ghost s = self.snapshots();
        let n = self.snapshots.len();
        let mut sel: Vec<DashboardSnapshot> = Vec::new();
        let mut i: usize = 0;
        while i < n
            invariant
                n == self.snapshots@.len(),
                s == self.snapshots(),
                i <= n,
                views(sel@) == snapshots_of(s.subrange(0, i as int), dashboard_id@),
            decreases n - i,
        {
            proof { assert(s.subrange(0, i + 1).drop_last() =~= s.subrange(0, i as int)); }
            if str_eq(self.snapshots[i].dashboard_id.as_str(), dashboard_id) {
                let ghost before = views(sel@);
                sel.push(self.snapshots[i].dup());
                assert(views(sel@) =~= before.push(s[i as int]));
            }
            i = i + 1;
        }
        proof { assert(s.subrange(0, n as int) =~= s); }
        newest_dup(&sel, limit)
    }

    /// Registers the overview and performance templates.
    pub fn init_default_templates(&mut self)
        ensures
            final(self).templates() == old(self).templates()
                .insert("overview"@, final(self).templates()["overview"@])
                .insert("performance"@, final(self).templates()["performance"@]),
            final(self).templates()["overview"@] == overview_template_spec(
                final(self).templates()["overview"@].dashboard.created_at, final(self).templates()["overview"@].dashboard.updated_at),
            final(self).templates()["performance"@] == performance_template_spec(
                final(self).templates()["performance"@].dashboard.created_at, final(self).templates()["performance"@].dashboard.updated_at),
            final(self).dashboards() == old(self).dashboards(),
            final(self).snapshots() == old(self).snapshots(),
            final(self).snapshot_bound() == old(self).snapshot_bound(),
    {
        proof {
            reveal_strlit("overview");
            reveal_strlit("performance");
        }
        let ov = DashboardManager::create_overview_template();
        let ghost ovv = ov@;
        self.register_template(ov);
        let pf = performance_template();
        let ghost pfv = pf@;
        self.register_template(pf);
        assert("overview"@.len() != "performance"@.len());
        assert(self.templates()["overview"@] == ovv);
    }
}

// ---------------------------------------------------------------------------
// Laws
// ---------------------------------------------------------------------------

/// A snapshot just recorded is the first one read back from the history of
/// its dashboard.
pub proof fn law_recorded_snapshot_is_newest(m1: DashboardManager, m2: DashboardManager, x: SnapshotView)
    requires
        m2.snapshots() == bounded_push(m1.snapshots(), m1.snapshot_bound(), x),
    ensures
        newest(snapshots_of(m2.snapshots(), x.dashboard_id), 1) == seq![x],
{
    let t = if m1.snapshots().len() >= m1.snapshot_bound() && m1.snapshots().len() > 0 { m1.snapshots().drop_first() } else { m1.snapshots() };
    assert(m2.snapshots().drop_last() =~= t);
    assert(snapshots_of(m2.snapshots(), x.dashboard_id) == snapshots_of(t, x.dashboard_id).push(x));
    assert(newest(snapshots_of(m2.snapshots(), x.dashboard_id), 1) =~= seq![x]);
}

/// Recording a snapshot never takes the history past its bound (when the
/// bound is at least one).
pub proof fn law_snapshot_history_stays_bounded(m1: DashboardManager, m2: DashboardManager, x: SnapshotView)
    requires
        m2.snapshots() == bounded_push(m1.snapshots(), m1.snapshot_bound(), x),
        m1.snapshot_bound() > 0,
        m1.snapshots().len() <= m1.snapshot_bound(),
    ensures
        m2.snapshots().len() <= m1.snapshot_bound(),
{
}

/// After a dashboard is made the default, it is the only default dashboard.
pub proof fn law_single_default(m1: DashboardManager, m2: DashboardManager, id: Seq<char>)
    requires
        m2.dashboards() == defaults_set(m1.dashboards(), id),
        m1.dashboards().dom().contains(id),
    ensures
        m2.dashboards().dom().contains(id),
        m2.dashboards()[id].is_default,
        forall|k: Seq<char>| #[trigger] m2.dashboards().dom().contains(k) && m2.dashboards()[k].is_default ==> k == id,
{
}

/// A dashboard made from a template keeps the template's widgets (under new
/// ids), layout and refresh interval, and leaves the template unchanged.
pub proof fn law_template_instance(m1: DashboardManager, m2: DashboardManager, template_id: Seq<char>, name: Seq<char>, by: Seq<char>, d: DashboardView)
    requires
        m1.templates().dom().contains(template_id),
        made_from(m1.templates()[template_id].dashboard, d, name, by),
        m2.templates() == m1.templates(),
        m2.dashboards() == m1.dashboards().insert(d.id, d),
    ensures
        m2.templates()[template_id] == m1.templates()[template_id],
        m2.dashboards()[d.id].layout == m1.templates()[template_id].dashboard.layout,
        m2.dashboards()[d.id].refresh_interval_secs == m1.templates()[template_id].dashboard.refresh_interval_secs,
        m2.dashboards()[d.id].widgets.len() == m1.templates()[template_id].dashboard.widgets.len(),
        forall|i: int| 0 <= i < d.widgets.len() ==> (#[trigger] m2.dashboards()[d.id].widgets[i]).title == m1.templates()[template_id].dashboard.widgets[i].title,
        !m2.dashboards()[d.id].is_default,
{
    assert forall|i: int| 0 <= i < d.widgets.len() implies (#[trigger] m2.dashboards()[d.id].widgets[i]).title == m1.templates()[template_id].dashboard.widgets[i].title by {
        assert(d.widgets[i] == (WidgetView { id: d.widgets[i].id, ..m1.templates()[template_id].dashboard.widgets[i] }));
    }
}

} // verus!
