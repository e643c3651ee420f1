//! Batches that are kept, counted and shown, and the files they are kept in.

use opentelemetry_proto::tonic::collector::logs::v1::ExportLogsServiceRequest;
use opentelemetry_proto::tonic::collector::metrics::v1::ExportMetricsServiceRequest;
use opentelemetry_proto::tonic::collector::trace::v1::ExportTraceServiceRequest;
use opentelemetry_proto::tonic::logs::v1::ResourceLogs as ProtoResourceLogs;
use otel_logger::agent::claude_code_name;
use otel_logger::cli::{ColorMode, LogSink, Settings};
use otel_logger::cli::routes::ProxyRoute;
use otel_logger::config::{ProxySignal, ProxyTransport};
use otel_logger::forward::router::{ProxyRouter, RouteLane};
use otel_logger::forward::RouteMetrics;
use otel_logger::jsonl::{logs_line, metrics_line, traces_line};
use otel_logger::otlp::{
    AnyValue, KeyValue, LogRecord, LogsRequest, MetricsRequest, Resource, ResourceLogs, ScopeLogs,
    TraceRequest, Value,
};
use otel_logger::sink::retention::{
    cleanup_old_rotated_logs, is_rotated_log_filename, retained_days, LogEntry, DAY_NANOS,
};
use otel_logger::sink::{JsonlPlan, Sink, TelemetryRecord};

const NOW: i128 = 1_700_000_000_000_000_000;

fn entry(name: &str, modified: i128) -> LogEntry {
    LogEntry { name: Some(name.to_string()), is_file: true, modified: Some(modified) }
}

#[test]
fn open_rotated_sync_with_zero_keep_days_retains_recent_files() {
    let keep = match JsonlPlan::of(&Some(LogSink::Directory {
        dir: b"/logs".to_vec(),
        keep_days: 0,
    })) {
        JsonlPlan::Rotate { dir, keep_days } => {
            assert_eq!(dir, b"/logs".to_vec());
            keep_days
        }
        _ => panic!("daily files were asked for"),
    };
    assert_eq!(keep, 1);
    assert_eq!(retained_days(0), 1);
    assert_eq!(retained_days(7), 7);
    let recent = vec![entry("otel-logger.2099-01-01", NOW - 60_000_000_000)];
    assert!(cleanup_old_rotated_logs(&recent, keep, NOW).is_empty());
}

#[test]
fn cleanup_removes_only_old_otel_logger_prefixed_files() {
    let old = NOW - 3 * DAY_NANOS;
    let entries = vec![
        entry("otel-logger.2020-01-01", old),
        entry("otel-logger.2099-01-01", NOW),
        entry("otel-logger.pid", old),
        entry("otel-logger.stderr.log", old),
        entry("otel-logger.jsonl", old),
        entry("other-app.log", old),
        entry("otel-logger.2020-99-99", old),
    ];
    assert_eq!(cleanup_old_rotated_logs(&entries, 1, NOW), vec![0]);
}

#[test]
fn cleanup_leaves_links_and_files_it_knows_nothing_of() {
    let old = NOW - 3 * DAY_NANOS;
    let mut link = entry("otel-logger.2020-01-01", old);
    link.is_file = false;
    let nameless = LogEntry { name: None, is_file: true, modified: Some(old) };
    let timeless =
        LogEntry { name: Some("otel-logger.2020-01-02".into()), is_file: true, modified: None };
    let goes = entry("otel-logger.2020-01-03", old);
    assert_eq!(cleanup_old_rotated_logs(&vec![link, nameless, timeless, goes], 1, NOW), vec![3]);
    let edge = vec![entry("otel-logger.2020-01-03", NOW - DAY_NANOS)];
    assert!(cleanup_old_rotated_logs(&edge, 1, NOW).is_empty());
    let past = vec![entry("otel-logger.2020-01-03", NOW - DAY_NANOS - 1)];
    assert_eq!(cleanup_old_rotated_logs(&past, 1, NOW), vec![0]);
}

#[test]
fn rotated_log_filename_requires_a_real_calendar_date() {
    assert!(is_rotated_log_filename("otel-logger.2024-02-29"));
    assert!(!is_rotated_log_filename("otel-logger.2023-02-29"));
    assert!(!is_rotated_log_filename("otel-logger.2026-13-01"));
    assert!(!is_rotated_log_filename("otel-logger.2026-04-31"));
}

#[test]
fn names_that_are_almost_those_of_daily_files_are_told_apart() {
    for name in [
        "otel-logger.2026-00-10",
        "otel-logger.2026-01-00",
        "otel-logger.2026-1-01",
        "otel-logger.20260101",
        "otel-logger.2026-01-01 ",
        "otel-logger-2026-01-01",
        "otel-logger.",
        "otel",
        "",
        "otel-logger.1900-02-29",
        "otel-logger.\u{ff12}026-01-01",
    ] {
        assert!(!is_rotated_log_filename(name), "{name}");
    }
    for name in ["otel-logger.2000-02-29", "otel-logger.0000-12-31", "otel-logger.9999-12-31"] {
        assert!(is_rotated_log_filename(name), "{name}");
    }
}

#[test]
fn a_file_is_appended_to_below_its_directory() {
    match JsonlPlan::of(&Some(LogSink::File(b"/var/log/a.jsonl".to_vec()))) {
        JsonlPlan::Append { path, parent } => {
            assert_eq!(path, b"/var/log/a.jsonl".to_vec());
            assert_eq!(parent, Some(b"/var/log".to_vec()));
        }
        _ => panic!("a file was asked for"),
    }
    match JsonlPlan::of(&Some(LogSink::File(b"a.jsonl".to_vec()))) {
        JsonlPlan::Append { parent, .. } => assert_eq!(parent, None),
        _ => panic!("a file was asked for"),
    }
    assert!(matches!(JsonlPlan::of(&None), JsonlPlan::Nothing));
}

#[test]
fn a_batch_is_one_line_with_its_kind() {
    let logs = ExportLogsServiceRequest {
        resource_logs: vec![ProtoResourceLogs {
            schema_url: "a\nb".into(),
            ..Default::default()
        }],
    };
    let line = logs_line(&logs).unwrap();
    let json = serde_json::to_string(&logs).unwrap();
    assert_eq!(String::from_utf8(line.clone()).unwrap(), format!("{{\"kind\":\"logs\",{}\n", &json[1..]));
    assert_eq!(line.iter().filter(|b| **b == 10).count(), 1);

    assert_eq!(
        logs_line(&ExportLogsServiceRequest::default()).unwrap(),
        b"{\"kind\":\"logs\",\"resourceLogs\":[]}\n".to_vec()
    );
    assert_eq!(
        traces_line(&ExportTraceServiceRequest::default()).unwrap(),
        b"{\"kind\":\"traces\",\"resourceSpans\":[]}\n".to_vec()
    );
    assert_eq!(
        metrics_line(&ExportMetricsServiceRequest::default()).unwrap(),
        b"{\"kind\":\"metrics\",\"resourceMetrics\":[]}\n".to_vec()
    );
}

#[test]
fn a_line_can_be_read_back() {
    let logs = ExportLogsServiceRequest {
        resource_logs: vec![ProtoResourceLogs { schema_url: "u".into(), ..Default::default() }],
    };
    let line = logs_line(&logs).unwrap();
    let mut value: serde_json::Value = serde_json::from_slice(&line).unwrap();
    let kind = value.as_object_mut().unwrap().remove("kind").unwrap();
    assert_eq!(kind.as_str(), Some("logs"));
    let back: ExportLogsServiceRequest = serde_json::from_value(value).unwrap();
    assert_eq!(back, logs);
}

fn settings(log_sink: Option<LogSink>, no_stdout: bool, summary: bool) -> Settings {
    Settings {
        grpc_addr: "127.0.0.1:0".into(),
        http_addr: "127.0.0.1:0".into(),
        log_sink,
        no_stdout,
        summary,
        color: ColorMode::Never,
        dry_run: false,
        proxy: None,
    }
}

fn file() -> Option<LogSink> {
    Some(LogSink::File(b"otel-logger.jsonl".to_vec()))
}

fn kv_str(key: &str, v: &str) -> KeyValue {
    KeyValue {
        key: key.to_string(),
        value: Some(AnyValue { value: Some(Value::Text(v.to_string())) }),
    }
}

fn api_request_log() -> TelemetryRecord {
    TelemetryRecord::Logs(LogsRequest {
        resource_logs: vec![ResourceLogs {
            resource: Some(Resource {
                attributes: vec![kv_str("service.name", &claude_code_name())],
            }),
            scope_logs: vec![ScopeLogs {
                scope: String::new(),
                log_records: vec![LogRecord {
                    time_unix_nano: 0,
                    severity_number: 0,
                    severity_text: String::new(),
                    body: Some(AnyValue {
                        value: Some(Value::Text("claude_code.api_request".to_string())),
                    }),
                    attributes: vec![
                        kv_str("model", "opus"),
                        kv_str("effort", "max"),
                        kv_str("input_tokens", "1"),
                        kv_str("output_tokens", "2"),
                        kv_str("cache_read_tokens", "3"),
                        kv_str("cache_creation_tokens", "4"),
                        kv_str("duration_ms", "5"),
                        kv_str("cost_usd", "0.01"),
                    ],
                    event_name: String::new(),
                }],
            }],
        }],
    })
}

#[test]
fn record_does_not_update_stats_when_jsonl_write_fails() {
    let mut sink = Sink::from_settings(&settings(file(), true, true), false, false, 0);
    let result = sink.record_at(&api_request_log(), Err("forced JSONL failure".into()), 1);
    match result {
        Err(e) => {
            assert_eq!(e.message(), "persist logs batch to JSONL");
            assert_eq!(e.cause, "forced JSONL failure");
        }
        Ok(_) => panic!("a batch that was not kept was accepted"),
    }
    assert!(sink.aggregator.snapshot().agents.is_empty());

    assert!(sink.record_at(&api_request_log(), Ok(()), 2).is_ok());
    let snapshot = sink.aggregator.snapshot();
    let agent = snapshot.agents.get(&claude_code_name()).unwrap();
    assert_eq!(agent.total.request_count, 1, "the second try counts, once");
    assert_eq!(agent.total.input_tokens, 1);
    assert_eq!(agent.total.output_tokens, 2);
    assert_eq!(agent.total.cache_read_tokens, 3);
    assert_eq!(agent.total.cache_creation_tokens, 4);
    assert_eq!(agent.total.duration_ms, 5);
}

#[test]
fn without_a_file_a_batch_is_counted_all_the_same() {
    let mut sink = Sink::from_settings(&settings(None, true, false), false, false, 0);
    assert!(!sink.persists);
    assert!(sink.record_at(&api_request_log(), Err("unused".into()), 1).is_ok());
    assert!(!sink.aggregator.snapshot().agents.is_empty());
}

#[test]
fn the_summary_follows_a_batch_that_changes_the_totals() {
    let mut sink = Sink::from_settings(&settings(file(), false, true), false, true, 0);
    let first = api_request_log();
    let done = match sink.record_at(&first, Ok(()), 1) {
        Ok(d) => d,
        Err(e) => panic!("{}", e.message()),
    };
    let text = sink.pretty(&first, &done.summary).unwrap();
    assert!(text.starts_with("[log] "), "{text}");
    assert!(text.contains("[stats:"), "{text}");
    assert!(text.contains("cost=$0.0100"), "{text}");

    let quiet = TelemetryRecord::Traces(TraceRequest { resource_spans: vec![] });
    match sink.record_at(&quiet, Ok(()), 2) {
        Ok(d) => assert!(d.summary.is_none(), "nothing has changed"),
        Err(e) => panic!("{}", e.message()),
    }
    let quiet = TelemetryRecord::Metrics(MetricsRequest { resource_metrics: vec![] });
    match sink.record_at(&quiet, Ok(()), 3) {
        Ok(d) => assert!(d.summary.is_none(), "nothing has changed"),
        Err(e) => panic!("{}", e.message()),
    }
}

#[test]
fn nothing_is_shown_where_standard_output_is_off() {
    let mut s = settings(file(), true, true);
    s.color = ColorMode::Always;
    let sink = Sink::from_settings(&s, false, true, 0);
    assert!(!sink.color);
    assert!(sink.pretty(&api_request_log(), &None).is_none());
    let mut s = settings(file(), false, false);
    s.color = ColorMode::Always;
    assert!(Sink::from_settings(&s, true, false, 0).color);
}

#[test]
fn kept_batches_are_handed_on() {
    let route = ProxyRoute {
        name: "anthropic".into(),
        service_names: vec![claude_code_name()],
        signals: ProxySignal::all(),
        transport: ProxyTransport::Grpc,
        endpoint: "https://example.invalid".into(),
        headers: vec![],
    };
    let router = ProxyRouter::new(vec![RouteLane { route, metrics: RouteMetrics::default() }]);
    let mut sink = Sink::from_settings_with_proxy(
        &settings(file(), true, false),
        Some(router),
        false,
        false,
        0,
    );
    match sink.record_at(&api_request_log(), Ok(()), 1) {
        Ok(d) => {
            assert_eq!(d.deliveries.len(), 1);
            assert_eq!(d.deliveries[0].lane, 0);
        }
        Err(e) => panic!("{}", e.message()),
    }
    assert!(sink.record_at(&api_request_log(), Err("full".into()), 1).is_err());
}

#[test]
fn each_kind_of_batch_has_its_name() {
    assert_eq!(api_request_log().kind(), "logs");
    assert_eq!(
        TelemetryRecord::Traces(TraceRequest { resource_spans: vec![] }).kind(),
        "traces"
    );
    assert_eq!(
        TelemetryRecord::Metrics(MetricsRequest { resource_metrics: vec![] }).kind(),
        "metrics"
    );
}
