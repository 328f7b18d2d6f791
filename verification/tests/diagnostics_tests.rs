use lg_ultragear::diagnostics::{
    DiagnosticEvent,
    format_diagnostic_line, latest_success_timestamp, parse_diagnostic_line, read_recent_diagnostic_events,
    sanitize_log_field,
};
use lg_ultragear::metrics::{compute_apply_latency_metrics, latency_sample_of};

fn line(ts: &str, event: &str, details: &str) -> String {
    format_diagnostic_line(ts, "svc", "INFO", event, details)
}

#[test]
fn sanitize_log_field_blanks_separators_and_trims() {
    assert_eq!(sanitize_log_field("  a\tb\r\nc  "), "a b  c");
    assert_eq!(sanitize_log_field("plain"), "plain");
}

#[test]
fn diagnostic_line_roundtrips_through_the_parser() {
    let l = format_diagnostic_line("2024-01-02T03:04:05Z", "cli", "WARN", "ddc_rollback", "rolled\tback\nnow");
    assert_eq!(l, "2024-01-02T03:04:05Z\tcli\tWARN\tddc_rollback\trolled back now");
    let ev = parse_diagnostic_line(&l).expect("line parses");
    assert_eq!(ev.timestamp, "2024-01-02T03:04:05Z");
    assert_eq!(ev.source, "cli");
    assert_eq!(ev.level, "WARN");
    assert_eq!(ev.event, "ddc_rollback");
    assert_eq!(ev.details, "rolled back now");
}

#[test]
fn parse_diagnostic_line_rejects_short_lines() {
    assert!(parse_diagnostic_line("only\tthree\tfields").is_none());
    assert!(parse_diagnostic_line("").is_none());
}

#[test]
fn recent_events_are_newest_first_and_limited() {
    let log = vec![line("t1", "a", ""), line("t2", "b", ""), "garbage".to_string(), line("t3", "c", "")];
    let events = read_recent_diagnostic_events(&log, 2);
    let names: Vec<&str> = events.iter().map(|e| e.event.as_str()).collect();
    assert_eq!(names, vec!["c", "b"]);
}

#[test]
fn latest_success_timestamp_finds_the_newest_success() {
    let log = vec![
        line("t1", "apply_success", ""),
        line("t2", "apply_failure", ""),
        line("t3", "apply_success", ""),
        line("t4", "other", ""),
    ];
    assert_eq!(latest_success_timestamp(&log).as_deref(), Some("t3"));
    assert_eq!(latest_success_timestamp(&vec![line("t1", "other", "")]), None);
}

#[test]
fn latency_sample_reads_ms_and_success() {
    assert_eq!(latency_sample_of("ms=120 success=1 refresh"), Some((120, true)));
    assert_eq!(latency_sample_of("success=no ms=7"), Some((7, false)));
    assert_eq!(latency_sample_of("success=true"), None);
    assert_eq!(latency_sample_of("ms=abc"), None);
}

#[test]
fn compute_apply_latency_metrics_empty_is_default() {
    let m = compute_apply_latency_metrics(&Vec::new(), 10);
    assert_eq!(m.samples, 0);
    assert_eq!(m.success_count, 0);
    assert_eq!(m.failure_count, 0);
    assert_eq!(m.total_ms, 0);
    assert_eq!(m.p95_ms, 0);
    assert_eq!(m.last_ms, 0);
}

#[test]
fn compute_apply_latency_metrics_parses_window_and_percentile() {
    let mut log = Vec::new();
    for (i, ms) in [100u64, 200, 300, 400, 500].iter().enumerate() {
        let ok = if i == 1 { 0 } else { 1 };
        log.push(line(&format!("t{}", i), "apply_latency", &format!("ms={} success={}", ms, ok)));
    }
    log.push(line("t9", "apply_success", ""));
    let m = compute_apply_latency_metrics(&log, 3);
    // The newest three samples: 500, 400, 300.
    assert_eq!(m.samples, 3);
    assert_eq!(m.success_count, 3);
    assert_eq!(m.failure_count, 0);
    assert_eq!(m.total_ms, 1200);
    assert_eq!(m.last_ms, 500);
    assert_eq!(m.p95_ms, 500);
    let all = compute_apply_latency_metrics(&log, 10);
    assert_eq!(all.samples, 5);
    assert_eq!(all.success_count + all.failure_count, all.samples);
    assert_eq!(all.failure_count, 1);
    assert_eq!(all.p95_ms, 500);
}

/// The event an apply-latency report appends to the log, read back.
fn latency_event_read_back(source: &str, ms: u64, success: bool, details: &str) -> Vec<DiagnosticEvent> {
    let line = format_diagnostic_line(
        "2024-01-01T00:00:00Z",
        source,
        "INFO",
        "apply_latency",
        &lg_ultragear::cli::latency_details(ms, success, details),
    );
    read_recent_diagnostic_events(&vec![line], 16)
}

#[test]
fn emit_apply_latency_cli_writes_event_when_metrics_enabled() {
    let metrics = lg_ultragear::state::MetricsConfig {
        enabled: true,
        collect_latency: true,
        collect_success_rate: true,
        rolling_window: 20,
    };
    assert!(metrics.records_latency());
    let events = latency_event_read_back("cli", 12, true, "test_case=emit_cli");
    assert!(events.iter().any(|e| e.source == "cli" && e.event == "apply_latency"
        && e.details.contains("test_case=emit_cli")));
}

#[test]
fn emit_apply_latency_tui_records_metrics_event_when_enabled() {
    let metrics = lg_ultragear::state::MetricsConfig {
        enabled: true,
        collect_latency: true,
        collect_success_rate: true,
        rolling_window: 32,
    };
    assert!(metrics.records_latency());
    let events = latency_event_read_back("tui", 3, true, "action=tui-latency-test");
    assert!(events.iter().any(|e| e.event == "apply_latency" && e.source == "tui"
        && e.details.contains("action=tui-latency-test")));
}

#[test]
fn latency_is_not_recorded_when_metrics_are_off() {
    let metrics = lg_ultragear::state::MetricsConfig {
        enabled: false,
        collect_latency: true,
        collect_success_rate: true,
        rolling_window: 32,
    };
    assert!(!metrics.records_latency());
}
