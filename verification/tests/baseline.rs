use mcpanel::monitor::baseline::{
    severity_for, AnomalyAlert, AnomalySeverity, BaselineLearner, BaselineMetrics, BaselineSensitivity,
};
use mcpanel::monitor::types::MetricType;

fn bits(values: &[f64]) -> Vec<u64> {
    values.iter().map(|v| v.to_bits()).collect()
}

fn anomaly(id: &str, t: u64) -> AnomalyAlert {
    AnomalyAlert {
        id: id.to_string(),
        metric_type: MetricType::CpuUsage,
        baseline_id: String::new(),
        current_value_bits: 90.0f64.to_bits(),
        expected_min_bits: 10.0f64.to_bits(),
        expected_max_bits: 50.0f64.to_bits(),
        deviation_score_bits: 3.5f64.to_bits(),
        severity: AnomalySeverity::High,
        timestamp: t,
        acknowledged: false,
    }
}

fn metrics(mean: f64) -> BaselineMetrics {
    BaselineMetrics {
        metric_type: MetricType::CpuUsage,
        mean_bits: mean.to_bits(),
        std_dev_bits: 1.0f64.to_bits(),
        min_bits: 0,
        max_bits: 0,
        p50_bits: 0,
        p95_bits: 0,
        p99_bits: 0,
        sample_count: 3,
        updated_at: 1,
    }
}

#[test]
fn test_baseline_learner_creation() {
    let learner = BaselineLearner::with_default();
    assert_eq!(learner.max_samples(), 10000);
}

#[test]
fn test_add_samples() {
    let mut learner = BaselineLearner::with_default();
    learner.add_samples(MetricType::CpuUsage, &bits(&[10.0, 20.0, 30.0, 40.0, 50.0]));
    let count = learner.get_sample_count(MetricType::CpuUsage);
    assert_eq!(count, 5);
}

#[test]
fn test_profile_creation() {
    let mut learner = BaselineLearner::with_default();
    let profile = learner.create_profile("CPU Profile", MetricType::CpuUsage);
    assert_eq!(profile.name, "CPU Profile");
    assert_eq!(profile.metric_type, MetricType::CpuUsage);
}

#[test]
fn samples_are_bounded() {
    let mut learner = BaselineLearner::new(3, 2);
    learner.add_samples(MetricType::Tps, &bits(&[1.0, 2.0, 3.0, 4.0]));
    assert_eq!(learner.samples_of(MetricType::Tps), bits(&[2.0, 3.0, 4.0]));
    assert_eq!(learner.get_sample_count(MetricType::CpuUsage), 0);
    learner.clear_samples(MetricType::Tps);
    assert!(learner.samples_of(MetricType::Tps).is_empty());
    let mut zero = BaselineLearner::new(0, 0);
    zero.add_sample(MetricType::Tps, 1);
    zero.add_sample(MetricType::Tps, 2);
    assert_eq!(zero.samples_of(MetricType::Tps), vec![2]);
    zero.clear_all_samples();
    assert_eq!(zero.get_sample_count(MetricType::Tps), 0);
}

#[test]
fn default_configs_and_sensitivity() {
    let mut learner = BaselineLearner::with_default();
    assert!(learner.get_config(MetricType::Tps).is_none());
    learner.setup_default_configs();
    let tps = learner.get_config(MetricType::Tps).unwrap();
    assert_eq!(tps.learning_window_secs, 7200);
    assert_eq!(tps.min_samples, 200);
    assert_eq!(tps.sensitivity, BaselineSensitivity::High);
    assert_eq!(learner.get_config(MetricType::CpuUsage).unwrap().update_interval_secs, 300);
    assert!(learner.get_config(MetricType::DiskRead).is_none());
    assert_eq!(f64::from_bits(BaselineSensitivity::Low.deviation_threshold()), 3.0);
    assert_eq!(f64::from_bits(BaselineSensitivity::Medium.deviation_threshold()), 2.0);
    assert_eq!(f64::from_bits(BaselineSensitivity::High.deviation_threshold()), 1.5);
}

#[test]
fn global_baseline_replaces_the_previous_one() {
    let mut learner = BaselineLearner::with_default();
    let p = learner.create_profile_at("cpu", MetricType::CpuUsage, 5);
    assert_eq!(learner.profile_metric(&p.id), Ok(MetricType::CpuUsage));
    learner.store_global_baseline(&p.id, metrics(1.0), 6).unwrap();
    learner.store_global_baseline(&p.id, metrics(2.0), 7).unwrap();
    let got = learner.get_profile(&p.id).unwrap();
    assert_eq!(got.baselines.len(), 1);
    assert_eq!(got.baselines[0].name, "global");
    assert_eq!(f64::from_bits(got.baselines[0].metrics.mean_bits), 2.0);
    assert_eq!(got.updated_at, 7);
    assert_eq!(learner.store_global_baseline("nope", metrics(1.0), 8).err(), Some("Profile not found".to_string()));
    assert_eq!(learner.baseline_id_for(MetricType::CpuUsage), p.id);
    assert_eq!(learner.baseline_id_for(MetricType::Tps), "");
    assert_eq!(learner.get_all_profiles().len(), 1);
    assert!(learner.delete_profile(&p.id).is_some());
    assert!(learner.get_profile(&p.id).is_none());
}

#[test]
fn anomaly_history_is_bounded_and_newest_first() {
    let mut learner = BaselineLearner::new(10, 2);
    learner.record_anomaly(anomaly("a", 1_000));
    learner.record_anomaly(anomaly("b", 2_000));
    learner.record_anomaly(anomaly("c", 3_000));
    let h: Vec<String> = learner.get_anomaly_history(10).into_iter().map(|a| a.id).collect();
    assert_eq!(h, vec!["c".to_string(), "b".to_string()]);
    assert_eq!(learner.get_anomaly_history(1).len(), 1);
    let recent: Vec<String> = learner.get_recent_anomalies_at(1, 3_500).into_iter().map(|a| a.id).collect();
    assert_eq!(recent, vec!["c".to_string()]);
    assert!(learner.acknowledge_anomaly("b").is_ok());
    assert!(learner.get_anomaly_history(10)[1].acknowledged);
    assert_eq!(learner.acknowledge_anomaly("a").err(), Some("Anomaly not found".to_string()));
}

#[test]
fn severity_from_deviation() {
    assert_eq!(severity_for(4.5f64.to_bits()), AnomalySeverity::Critical);
    assert_eq!(severity_for(4.0f64.to_bits()), AnomalySeverity::High);
    assert_eq!(severity_for(3.5f64.to_bits()), AnomalySeverity::High);
    assert_eq!(severity_for(2.5f64.to_bits()), AnomalySeverity::Medium);
    assert_eq!(severity_for(2.0f64.to_bits()), AnomalySeverity::Low);
    assert_eq!(severity_for(f64::NAN.to_bits()), AnomalySeverity::Low);
}
