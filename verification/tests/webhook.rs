use mcpanel::clock::now_millis_unsigned;
use mcpanel::dup::Duplicate;
use mcpanel::monitor::types::{Alert, AlertLevel};
use mcpanel::monitor::webhook::{
    build_body, build_discord_payload, build_slack_payload, build_teams_payload, equal_ignoring_ascii_case,
    failure_result, response_result, WebhookBody, WebhookError, WebhookNotifier, WebhookPayload, WebhookType,
};

fn alert(level: AlertLevel, metric: &str, message: &str, value: f64, threshold: f64) -> Alert {
    Alert::new(
        "test".to_string(),
        level,
        metric.to_string(),
        message.to_string(),
        value.to_bits(),
        threshold.to_bits(),
    )
}

#[test]
fn test_webhook_config_creation() {
    let config = WebhookNotifier::create_discord_webhook("Test", "https://discord.com/webhook");
    assert_eq!(config.name, "Test");
    assert_eq!(config.webhook_type, WebhookType::Discord);
    assert!(config.enabled);
}

#[test]
fn test_add_and_get_webhook() {
    let mut notifier = WebhookNotifier::new();
    let config = WebhookNotifier::create_discord_webhook("Test", "https://discord.com/webhook");

    notifier.add_webhook(config.dup());
    let retrieved = notifier.get_webhook(&config.id).unwrap();
    assert_eq!(retrieved.name, "Test");
}

#[test]
fn test_enable_disable_webhook() {
    let mut notifier = WebhookNotifier::new();
    let config = WebhookNotifier::create_discord_webhook("Test", "https://discord.com/webhook");
    notifier.add_webhook(config);

    notifier.disable_webhook("test").unwrap_err();

    let retrieved = notifier.get_all_webhooks();
    assert!(retrieved[0].enabled);
}

#[test]
fn test_build_discord_payload() {
    let a = alert(AlertLevel::Warning, "cpu_usage", "CPU usage exceeded", 95.0, 90.0);
    let payload = WebhookPayload::from_alert(WebhookType::Discord, a);
    let discord = build_discord_payload(&payload, "95.00", "90.00", now_millis_unsigned());

    assert!(!discord.embeds.is_empty());
    assert_eq!(discord.embeds[0].color, 16776960);
}

#[test]
fn test_build_slack_payload() {
    let a = alert(AlertLevel::Critical, "memory_percent", "Memory usage critical", 98.0, 95.0);
    let payload = WebhookPayload::from_alert(WebhookType::Slack, a);
    let slack = build_slack_payload(&payload, "98.00", "95.00");

    assert!(!slack.blocks.is_empty());
    assert_eq!(slack.attachments[0].color, "#e74c3c");
}

#[test]
fn test_filter_should_notify() {
    let mut notifier = WebhookNotifier::new();
    let mut config = WebhookNotifier::create_discord_webhook("Test", "https://discord.com/webhook");
    config.filters.alert_levels = Some(vec!["Warning".to_string(), "Critical".to_string()]);
    notifier.add_webhook(config.dup());

    let warning_alert = alert(AlertLevel::Warning, "cpu_usage", "CPU warning", 85.0, 80.0);
    let info_alert = alert(AlertLevel::Info, "cpu_usage", "CPU info", 70.0, 80.0);

    assert!(notifier.filter_should_notify(&config.id, &warning_alert));
    assert!(!notifier.filter_should_notify(&config.id, &info_alert));
}

#[test]
fn webhook_level_filter_ignores_ascii_case() {
    let mut notifier = WebhookNotifier::new();
    let mut config = WebhookNotifier::create_slack_webhook("S", "https://hooks.slack.com/x");
    config.filters.alert_levels = Some(vec!["cRiTiCaL".to_string()]);
    notifier.add_webhook(config.dup());
    assert!(notifier.filter_should_notify(&config.id, &alert(AlertLevel::Critical, "tps", "m", 1.0, 2.0)));
    assert!(!notifier.filter_should_notify(&config.id, &alert(AlertLevel::Warning, "tps", "m", 1.0, 2.0)));
    assert!(equal_ignoring_ascii_case("Warning", "WARNING"));
    assert!(!equal_ignoring_ascii_case("Warning", "Warnings"));
    assert!(!equal_ignoring_ascii_case("É", "é"));
}

#[test]
fn webhook_metric_and_minimum_filters() {
    let mut notifier = WebhookNotifier::new();
    let mut config = WebhookNotifier::create_discord_webhook("D", "https://discord.com/webhook");
    config.filters.metric_types = Some(vec!["cpu_usage".to_string()]);
    config.filters.min_value_bits = Some(50.0f64.to_bits());
    notifier.add_webhook(config.dup());
    let id = config.id.clone();
    assert!(notifier.filter_should_notify(&id, &alert(AlertLevel::Info, "cpu_usage", "m", 50.0, 0.0)));
    assert!(notifier.filter_should_notify(&id, &alert(AlertLevel::Info, "cpu_usage", "m", 75.5, 0.0)));
    assert!(!notifier.filter_should_notify(&id, &alert(AlertLevel::Info, "cpu_usage", "m", 49.99, 0.0)));
    assert!(!notifier.filter_should_notify(&id, &alert(AlertLevel::Info, "cpu_usage", "m", -80.0, 0.0)));
    assert!(!notifier.filter_should_notify(&id, &alert(AlertLevel::Info, "memory_percent", "m", 99.0, 0.0)));
    // NaN is never below the minimum.
    assert!(notifier.filter_should_notify(&id, &alert(AlertLevel::Info, "cpu_usage", "m", f64::NAN, 0.0)));
    // An unknown webhook is never notified.
    assert!(!notifier.filter_should_notify("nope", &alert(AlertLevel::Info, "cpu_usage", "m", 99.0, 0.0)));
}

#[test]
fn webhook_negative_zero_equals_zero_for_minimum() {
    let mut notifier = WebhookNotifier::new();
    let mut config = WebhookNotifier::create_discord_webhook("D", "u");
    config.filters.min_value_bits = Some(0.0f64.to_bits());
    notifier.add_webhook(config.dup());
    assert!(notifier.filter_should_notify(&config.id, &alert(AlertLevel::Info, "x", "m", -0.0, 0.0)));
    assert!(!notifier.filter_should_notify(&config.id, &alert(AlertLevel::Info, "x", "m", f64::NEG_INFINITY, 0.0)));
}

#[test]
fn webhook_update_remove_and_targets() {
    let mut notifier = WebhookNotifier::new();
    let config = WebhookNotifier::create_discord_webhook("D", "https://discord.com/webhook");
    let id = config.id.clone();
    let stray = WebhookNotifier::create_slack_webhook("S", "u");
    match notifier.update_webhook(stray.dup()) {
        Err(WebhookError::NotFound(x)) => assert_eq!(x, stray.id),
        _ => panic!("update of an absent webhook must fail"),
    }
    notifier.add_webhook(config.dup());
    let mut renamed = config.dup();
    renamed.name = "Renamed".to_string();
    assert!(notifier.update_webhook(renamed).is_ok());
    assert_eq!(notifier.get_webhook(&id).unwrap().name, "Renamed");

    assert_eq!(notifier.delivery_target(&id).unwrap().id, id);
    notifier.disable_webhook(&id).unwrap();
    match notifier.delivery_target(&id) {
        Err(WebhookError::InvalidConfig(t)) => assert_eq!(t, "Webhook is disabled"),
        _ => panic!("a disabled webhook is no target"),
    }
    let a = alert(AlertLevel::Info, "cpu_usage", "m", 1.0, 2.0);
    match notifier.alert_target(&id, &a) {
        Err(WebhookError::InvalidConfig(t)) => assert_eq!(t, "Webhook is disabled"),
        _ => panic!("a disabled webhook takes no alert"),
    }
    assert_eq!(notifier.queue_target(&id, &a).unwrap().id, id);
    notifier.enable_webhook(&id).unwrap();
    assert!(notifier.alert_target(&id, &a).is_ok());
    match notifier.delivery_target("missing") {
        Err(WebhookError::NotFound(x)) => assert_eq!(x, "missing"),
        _ => panic!("an absent webhook is no target"),
    }
    match notifier.queue_target("missing", &a) {
        Err(WebhookError::InvalidConfig(t)) => assert_eq!(t, "Alert does not match webhook filters"),
        _ => panic!("an absent webhook takes no alert"),
    }
    assert_eq!(notifier.remove_webhook(&id).unwrap().name, "Renamed");
    assert!(notifier.remove_webhook(&id).is_none());
    assert!(notifier.get_all_webhooks().is_empty());
}

#[test]
fn webhook_delivery_history() {
    let mut notifier = WebhookNotifier::new();
    assert_eq!(notifier.max_history_size(), 1000);
    let ok = response_result("w", "p1", 204, "204 No Content", Some("done".to_string()), 10);
    assert!(ok.success);
    assert_eq!(ok.error_message, None);
    let kept = notifier.record_delivery(ok).unwrap();
    assert_eq!(kept.payload_id, "p1");

    let bad = response_result("w", "p2", 404, "404 Not Found", None, 11);
    assert!(!bad.success);
    assert_eq!(bad.status_code, Some(404));
    match notifier.record_delivery(bad) {
        Err(WebhookError::SendFailed(t)) => assert_eq!(t, "HTTP 404 Not Found"),
        _ => panic!("a failed delivery is an error"),
    }
    let lost = failure_result("w", "p3", "connection refused".to_string(), 12);
    match notifier.record_delivery(lost) {
        Err(WebhookError::SendFailed(t)) => assert_eq!(t, "connection refused"),
        _ => panic!("a failed delivery is an error"),
    }
    let h = notifier.get_delivery_history(2);
    assert_eq!(h.len(), 2);
    assert_eq!(h[0].payload_id, "p3");
    assert_eq!(h[1].payload_id, "p2");
    assert_eq!(notifier.get_delivery_history(10).len(), 3);

    for i in 0..1005u64 {
        let _ = notifier.record_delivery(response_result("w", &i.to_string(), 200, "200 OK", None, i));
    }
    let all = notifier.get_delivery_history(5000);
    assert_eq!(all.len(), 1000);
    assert_eq!(all[0].payload_id, "1004");
    assert_eq!(all[999].payload_id, "5");
}

#[test]
fn webhook_message_bodies() {
    let a = alert(AlertLevel::Warning, "cpu_usage", "CPU high", 85.0, 80.0);
    let p = WebhookPayload::from_alert(WebhookType::Teams, a);
    let t = build_teams_payload(&p, "85.00", "80.00");
    assert_eq!(t.theme_color, "f39c12");
    assert_eq!(t.summary, "Warning - cpu_usage");
    assert_eq!(t.sections[0].activity_subtitle.as_deref(), Some("CPU high"));
    assert_eq!(t.sections[0].facts[1].value, "85.00");

    let s = build_slack_payload(&p, "85.00", "80.00");
    assert_eq!(s.text, "*Warning*\n> CPU high\n*Current:* 85.00 | *Threshold:* 80.00");
    assert_eq!(s.blocks[1].text.as_ref().unwrap().text, s.text);

    let d = build_discord_payload(&p, "85.00", "80.00", 0);
    assert_eq!(d.content.as_deref(), Some("**Teams Alert**"));
    assert_eq!(d.embeds[0].description.as_deref(), Some("CPU high\n**Value:** 85.00\n**Threshold:** 80.00"));
    assert_eq!(d.embeds[0].fields[1].value, "Warning");
    assert_eq!(d.embeds[0].footer.as_ref().unwrap().text, "MC Server Monitor \u{2022} 1970-01-01 00:00:00");

    let m = WebhookPayload::with_message(WebhookType::Slack, "hello".to_string());
    let s2 = build_slack_payload(&m, "", "");
    assert_eq!(s2.text, "hello");
    assert_eq!(s2.attachments[0].color, "#3498db");
    let t2 = build_teams_payload(&m, "", "");
    assert_eq!(t2.summary, "MC Server Monitor");
    assert!(t2.sections[0].facts.is_empty());
    let d2 = build_discord_payload(&m, "", "", 0);
    assert_eq!(d2.embeds[0].color, 3447003);
    assert!(d2.embeds[0].fields.is_empty());

    assert!(matches!(build_body(WebhookType::Discord, &m, "", "", 0), WebhookBody::Discord(_)));
    assert!(matches!(build_body(WebhookType::Slack, &m, "", "", 0), WebhookBody::Slack(_)));
    assert!(matches!(build_body(WebhookType::Teams, &m, "", "", 0), WebhookBody::Teams(_)));
    assert!(matches!(build_body(WebhookType::Telegram, &m, "", "", 0), WebhookBody::Payload));
    assert!(matches!(build_body(WebhookType::Generic, &m, "", "", 0), WebhookBody::Payload));
}

#[test]
fn webhook_disable_then_enable_restores() {
    let mut notifier = WebhookNotifier::new();
    let config = WebhookNotifier::create_discord_webhook("D", "u");
    let id = config.id.clone();
    notifier.add_webhook(config);
    notifier.disable_webhook(&id).unwrap();
    assert!(!notifier.get_webhook(&id).unwrap().enabled);
    notifier.enable_webhook(&id).unwrap();
    assert!(notifier.get_webhook(&id).unwrap().enabled);
}

#[test]
fn request_headers_carry_type_configured_and_secret() {
    let mut config = WebhookNotifier::create_discord_webhook("Test", "https://discord.com/webhook");
    let h = config.request_headers();
    assert_eq!(h, vec![("Content-Type".to_string(), "application/json".to_string())]);
    config.headers = vec![("X-A".to_string(), "1".to_string()), ("X-B".to_string(), "2".to_string())];
    config.secret = Some("s3".to_string());
    let h = config.request_headers();
    assert_eq!(
        h,
        vec![
            ("Content-Type".to_string(), "application/json".to_string()),
            ("X-A".to_string(), "1".to_string()),
            ("X-B".to_string(), "2".to_string()),
            ("X-Webhook-Secret".to_string(), "s3".to_string()),
        ]
    );
}
