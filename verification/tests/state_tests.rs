use lg_ultragear::state::{
    risky_vcp_codes_from_csv, is_risky_vcp_write, trim_label, snapshot_kind, last_good_snapshot_id,
    AbCompareState, AutomationIntervals, DdcGuardrails, DdcSafetyConfig, MetricsConfig, RecoveryState,
};

#[test]
fn risky_vcp_codes_parses_hex_and_decimal() {
    let codes = risky_vcp_codes_from_csv("04,0x06,10,0A,0XDC");
    // Parser prefers hexadecimal when the token is valid hex.
    assert_eq!(codes, vec![0x04, 0x06, 0x10, 0x0A, 0xDC]);
}

#[test]
fn risky_vcp_codes_ignores_invalid_values() {
    let codes = risky_vcp_codes_from_csv(",,bad,0xGG, 14 , 0x10");
    assert_eq!(codes, vec![0x14, 0x10]);
}

#[test]
fn risky_vcp_write_checks_the_configured_list() {
    let mut safety = DdcSafetyConfig::default();
    assert!(is_risky_vcp_write(0xDC, &safety));
    assert!(!is_risky_vcp_write(0x10, &safety));
    safety.risky_vcp_codes = "04,10,DC".to_string();
    assert!(is_risky_vcp_write(0x10, &safety));
    assert!(!is_risky_vcp_write(0x12, &safety));
}

#[test]
fn guardrails_sanitized_clamps_and_orders_the_window() {
    let g = DdcGuardrails { enabled: true, min_brightness: 150, max_brightness: 20, confirm_risky_writes: false };
    let s = g.sanitized();
    assert_eq!((s.min_brightness, s.max_brightness), (100, 100));
    assert!(s.enabled && !s.confirm_risky_writes);
    let g = DdcGuardrails { enabled: false, min_brightness: 40, max_brightness: 10, confirm_risky_writes: true };
    let s = g.sanitized();
    assert_eq!((s.min_brightness, s.max_brightness), (40, 40));
    assert_eq!(s.sanitized(), s);
    let d = DdcGuardrails::default();
    assert_eq!((d.enabled, d.min_brightness, d.max_brightness, d.confirm_risky_writes), (false, 15, 90, true));
}

#[test]
fn metrics_config_sanitized_keeps_a_window_of_one() {
    let m = MetricsConfig { rolling_window: 0, ..MetricsConfig::default() };
    assert_eq!(m.sanitized().rolling_window, 1);
    assert!(MetricsConfig::default().records_latency());
}

#[test]
fn snapshot_label_and_kind_defaults() {
    assert_eq!(trim_label("  Before update  "), "Before update");
    assert_eq!(trim_label("   "), "Snapshot");
    assert_eq!(snapshot_kind(" auto "), "auto");
    assert_eq!(snapshot_kind(""), "manual");
}

#[test]
fn recovery_state_points_to_its_snapshot() {
    let st = RecoveryState::last_good("2024-01-01T00:00:00Z".to_string(), "snap-1", "lg.icm", Some(60), "  note  ");
    assert_eq!(st.notes, "note");
    assert_eq!(last_good_snapshot_id(&Some(st.clone())).as_deref(), Some("snap-1"));
    let empty = RecoveryState { snapshot_id: String::new(), ..st };
    assert_eq!(last_good_snapshot_id(&Some(empty)), None);
    assert_eq!(last_good_snapshot_id(&None), None);
}

#[test]
fn ab_compare_state_defaults() {
    let st = AbCompareState::default();
    assert!(!st.enabled);
    assert_eq!(st.current_side, "A");
    assert_eq!(st.profile_a_label, "Current");
    assert_eq!(st.profile_b_label, "Baseline");
}

#[test]
fn is_risky_vcp_write_uses_configured_csv() {
    let safety = DdcSafetyConfig { risky_vcp_codes: "04,10,DC".to_string(), ..DdcSafetyConfig::default() };
    assert!(is_risky_vcp_write(0x10, &safety));
    assert!(!is_risky_vcp_write(0x12, &safety));
}

#[test]
fn automation_intervals_are_raised_to_their_floors() {
    let low = AutomationIntervals { sensor_poll_interval_ms: 10, sensor_timeout_ms: 5, app_rules_poll_interval_ms: 0 };
    let s = low.sanitized();
    assert_eq!(s.sensor_poll_interval_ms, 500);
    assert_eq!(s.sensor_timeout_ms, 100);
    assert_eq!(s.app_rules_poll_interval_ms, 500);
    let d = AutomationIntervals::default();
    assert_eq!(d.sanitized(), d);
    assert_eq!(d.sensor_poll_interval_ms, 4000);
    assert_eq!(d.sensor_timeout_ms, 1500);
    assert_eq!(d.app_rules_poll_interval_ms, 3000);
}
