//! Telemetry and totals as they are shown.

use otel_logger::aggregator::Aggregator;
use otel_logger::agent::claude_code_name;
use otel_logger::double::{Double, Usd};
use otel_logger::format::number::{format_cost, format_duration_ns};
use otel_logger::format::{
    any_value_to_string, format_attrs, format_unix_nanos, hex_id, quote_for_pretty, render,
    render_summary, service_label, severity_label, TelemetryRecord,
};
use otel_logger::otlp::{
    AnyValue, Event, Gauge, Histogram, HistogramDataPoint, KeyValue, LogRecord, LogsRequest,
    Metric, MetricData, MetricsRequest, NumberDataPoint, NumberValue, Resource, ResourceLogs,
    ResourceMetrics, ResourceSpans, ScopeLogs, ScopeMetrics, ScopeSpans, Span, Sum, TraceRequest,
    Value,
};

fn value(v: Value) -> AnyValue {
    AnyValue { value: Some(v) }
}

fn kv(key: &str, v: Value) -> KeyValue {
    KeyValue { key: key.to_string(), value: Some(value(v)) }
}

fn kv_str(key: &str, v: &str) -> KeyValue {
    kv(key, Value::Text(v.to_string()))
}

fn double(x: f64) -> Double {
    Double { bits: x.to_bits(), text: x.to_string() }
}

fn resource(service: &str) -> Option<Resource> {
    Some(Resource { attributes: vec![kv_str("service.name", service)] })
}

fn one_log(service: &str, body: &str, attributes: Vec<KeyValue>) -> TelemetryRecord {
    TelemetryRecord::Logs(LogsRequest {
        resource_logs: vec![ResourceLogs {
            resource: resource(service),
            scope_logs: vec![ScopeLogs {
                scope: "lib".into(),
                log_records: vec![LogRecord {
                    time_unix_nano: 1_500_000_000,
                    severity_number: 9,
                    severity_text: String::new(),
                    body: Some(value(Value::Text(body.to_string()))),
                    attributes,
                    event_name: String::new(),
                }],
            }],
        }],
    })
}

#[test]
fn a_log_record_is_one_line_with_its_attributes_below() {
    let record = one_log("svc", "hello world", vec![kv_str("a", "b"), kv("n", Value::Int(-3))]);
    assert_eq!(
        render(&record, false),
        "[log] 1970-01-01T00:00:01.5Z service=svc scope=lib severity=INFO body=\"hello world\"\n        attrs: {a=b, n=-3}\n"
    );
    assert_eq!(
        render(&record, true),
        "\u{1b}[33m[log]\u{1b}[0m \u{1b}[2m1970-01-01T00:00:01.5Z\u{1b}[0m service=\u{1b}[1msvc\u{1b}[0m scope=lib severity=\u{1b}[32mINFO\u{1b}[0m body=\"hello world\"\n        \u{1b}[2mattrs:\u{1b}[0m {a=b, n=-3}\n"
    );
}

#[test]
fn control_characters_in_a_payload_are_shown_by_their_number() {
    let record = one_log("s\u{1b}[2J", "a\nb", vec![kv_str("k\u{7}", "v\u{9b}")]);
    let out = render(&record, false);
    assert!(out.contains("service=s\\u{1b}[2J"), "{out}");
    assert!(out.contains("body=a\\u{a}b"), "{out}");
    assert!(out.contains("{k\\u{7}=v\\u{9b}}"), "{out}");
    assert!(!out.chars().any(|c| c.is_control() && c != '\n'), "{out}");
    assert_eq!(out.matches('\n').count(), 2, "{out}");
}

#[test]
fn a_span_shows_its_duration_status_and_events() {
    let record = TelemetryRecord::Traces(TraceRequest {
        resource_spans: vec![ResourceSpans {
            resource: None,
            scope_spans: vec![ScopeSpans {
                scope: String::new(),
                spans: vec![Span {
                    trace_id: vec![0xab, 1],
                    span_id: vec![],
                    name: "op".into(),
                    start_time_unix_nano: 1_000_000_000,
                    end_time_unix_nano: 1_001_500_000,
                    attributes: vec![],
                    events: vec![Event {
                        time_unix_nano: 0,
                        name: "ev".into(),
                        attributes: vec![],
                    }],
                    status_code: 2,
                }],
            }],
        }],
    });
    assert_eq!(
        render(&record, false),
        "[trace] 1970-01-01T00:00:01Z service=unknown scope= span=op dur=1.50ms status=ERROR trace=ab01 span_id=-\n        event @- ev {}\n"
    );
}

fn metric(name: &str, unit: &str, description: &str, data: Option<MetricData>) -> Metric {
    Metric { name: name.into(), description: description.into(), unit: unit.into(), data }
}

#[test]
fn metrics_show_their_points() {
    let int = |n: i64| NumberDataPoint { attributes: vec![], value: Some(NumberValue::AsInt(n)) };
    let metrics = vec![
        metric(
            "m1",
            "tokens",
            "count of x",
            Some(MetricData::Sum(Sum {
                data_points: vec![
                    int(5),
                    NumberDataPoint {
                        attributes: vec![kv_str("t", "u")],
                        value: Some(NumberValue::AsDouble(double(1.25))),
                    },
                ],
                aggregation_temporality: 1,
            })),
        ),
        metric(
            "m2",
            "",
            "",
            Some(MetricData::Gauge(Gauge {
                data_points: vec![NumberDataPoint { attributes: vec![], value: None }],
            })),
        ),
        metric(
            "m3",
            "",
            "",
            Some(MetricData::Histogram(Histogram {
                data_points: vec![
                    HistogramDataPoint { attributes: vec![], count: 2, sum: Some(double(3.5)) },
                    HistogramDataPoint { attributes: vec![], count: 1, sum: None },
                ],
                aggregation_temporality: 1,
            })),
        ),
        metric("m4", "", "", Some(MetricData::ExponentialHistogram(4))),
        metric("m5", "", "", Some(MetricData::Summary(2))),
        metric("m6", "", "", None),
    ];
    let record = TelemetryRecord::Metrics(MetricsRequest {
        resource_metrics: vec![ResourceMetrics {
            resource: resource("svc"),
            scope_metrics: vec![ScopeMetrics { scope: "s".into(), metrics }],
        }],
    });
    let expected = [
        "[metric] service=svc scope=s name=m1 unit=tokens sum=[5, 1.25 {t=u}] (count of x)",
        "[metric] service=svc scope=s name=m2 gauge=[?] ",
        "[metric] service=svc scope=s name=m3 hist=[count=2 sum=3.5, count=1 sum=] ",
        "[metric] service=svc scope=s name=m4 exp_hist=points=4 ",
        "[metric] service=svc scope=s name=m5 summary=points=2 ",
        "[metric] service=svc scope=s name=m6 no_data ",
        "",
    ];
    assert_eq!(render(&record, false), expected.join("\n"));
}

#[test]
fn totals_are_shown_with_their_buckets() {
    let mut agg = Aggregator::new_at(0);
    let attrs = vec![
        kv_str("event.name", "api_request"),
        kv_str("model", "m"),
        kv_str("effort", "max"),
        kv("input_tokens", Value::Int(10)),
        kv("output_tokens", Value::Int(20)),
        kv("cache_read_tokens", Value::Int(30)),
        kv("cache_creation_tokens", Value::Int(40)),
        kv("duration_ms", Value::Int(1500)),
        kv("cost_usd", Value::Double(double(0.5))),
    ];
    let record = one_log(&claude_code_name(), "claude_code.api_request", attrs);
    let TelemetryRecord::Logs(req) = &record else { unreachable!() };
    assert_eq!(agg.ingest_logs_at(req, 7), 1);
    let counters = "input=10 output=20 cache_read=30 cache_create=40 reasoning=0 cost=$0.5000 duration=1.500s";
    assert_eq!(
        render_summary(&agg.snapshot(), false),
        format!(
            "[stats:{}] requests=1 {counters} since=1970-01-01T00:00:00Z\n        breakdown provider=anthropic model=m effort=max: requests=1 {counters}\n",
            claude_code_name()
        )
    );
    assert_eq!(render_summary(&Aggregator::new_at(0).snapshot(), false), "");
}

#[test]
fn durations_are_rounded_as_doubles_are() {
    for ns in [
        0u64, 1, 999, 1_000, 1_005, 1_015, 999_994, 999_995, 999_999, 1_000_000, 1_234_567,
        999_999_999, 1_000_000_000, 1_000_500_000, 61_000_000_000, u64::MAX, u64::MAX - 1,
        9_007_199_254_740_993,
    ] {
        let expected = if ns < 1_000 {
            format!("{ns}ns")
        } else if ns < 1_000_000 {
            format!("{:.2}\u{b5}s", ns as f64 / 1_000.0)
        } else if ns < 1_000_000_000 {
            format!("{:.2}ms", ns as f64 / 1_000_000.0)
        } else {
            format!("{:.3}s", ns as f64 / 1_000_000_000.0)
        };
        assert_eq!(format_duration_ns(ns), expected, "{ns}");
    }
}

#[test]
fn costs_have_four_places_or_six_below_a_cent() {
    let usd = |x: f64| double(x).usd();
    assert_eq!(format_cost(Usd { units: 0 }), "$0");
    for x in [0.0099999, 0.01, 0.000001, 0.5, 1.25, 12.34567, 1234.5, 0.00499999] {
        let expected = if x < 0.01 { format!("${x:.6}") } else { format!("${x:.4}") };
        assert_eq!(format_cost(usd(x)), expected, "{x}");
    }
}

#[test]
fn values_are_shown_by_their_kind() {
    assert_eq!(any_value_to_string(&value(Value::Bool(true))), "true");
    assert_eq!(any_value_to_string(&value(Value::Int(-7))), "-7");
    assert_eq!(any_value_to_string(&value(Value::Double(double(0.1)))), "0.1");
    assert_eq!(any_value_to_string(&value(Value::Bytes(vec![1, 0xfe]))), "0x01fe");
    assert_eq!(
        any_value_to_string(&value(Value::Array(vec![
            value(Value::Int(1)),
            value(Value::Text("x y".into()))
        ]))),
        "[1, x y]"
    );
    assert_eq!(
        any_value_to_string(&value(Value::Kvlist(vec![kv_str("a", "b c")]))),
        "{a=\"b c\"}"
    );
    assert_eq!(any_value_to_string(&AnyValue { value: None }), "");
    assert_eq!(format_attrs(&vec![]), "{}");
}

#[test]
fn quotes_are_put_where_they_are_needed() {
    assert_eq!(quote_for_pretty("plain"), "plain");
    assert_eq!(quote_for_pretty("a b"), "\"a b\"");
    assert_eq!(quote_for_pretty("a=b"), "\"a=b\"");
    assert_eq!(quote_for_pretty("a\"b\\c"), "\"a\\\"b\\\\c\"");
    assert_eq!(quote_for_pretty("a\\b"), "a\\b");
}

#[test]
fn severities_come_from_the_text_or_the_number() {
    assert_eq!(severity_label(17, "warn"), "WARN");
    assert_eq!(severity_label(0, "stra\u{df}e"), "STRASSE");
    for (n, label) in [
        (0, "UNSPECIFIED"),
        (1, "TRACE"),
        (8, "DEBUG"),
        (9, "INFO"),
        (16, "WARN"),
        (17, "ERROR"),
        (24, "FATAL"),
        (25, "UNSPECIFIED"),
        (-1, "UNSPECIFIED"),
    ] {
        assert_eq!(severity_label(n, ""), label, "{n}");
    }
}

#[test]
fn times_ids_and_services_have_a_text_when_they_are_absent() {
    assert_eq!(format_unix_nanos(0), "-");
    assert_eq!(format_unix_nanos(1_700_000_000_123_456_789), "2023-11-14T22:13:20.123456789Z");
    assert_eq!(hex_id(&vec![]), "-");
    assert_eq!(hex_id(&vec![0, 255]), "00ff");
    assert_eq!(service_label(&None), "unknown");
    assert_eq!(service_label(&resource("x")), "x");
}

fn without_colors(s: &str) -> String {
    let mut out = String::new();
    let mut rest = s;
    while let Some(at) = rest.find('\u{1b}') {
        out.push_str(&rest[..at]);
        let code = rest[at..].find('m').unwrap();
        assert!(rest[at + 2..at + code].chars().all(|c| c.is_ascii_digit()));
        rest = &rest[at + code + 1..];
    }
    out.push_str(rest);
    out
}

#[test]
fn colour_is_all_that_differs() {
    let traces = TelemetryRecord::Traces(TraceRequest {
        resource_spans: vec![ResourceSpans {
            resource: resource("svc \u{1b}[31m"),
            scope_spans: vec![ScopeSpans {
                scope: "lib".into(),
                spans: vec![Span {
                    trace_id: vec![1; 16],
                    span_id: vec![],
                    name: "work".into(),
                    start_time_unix_nano: 1,
                    end_time_unix_nano: 5_000,
                    attributes: vec![kv_str("a", "b c")],
                    events: vec![Event {
                        time_unix_nano: 2,
                        name: "ev".into(),
                        attributes: vec![kv("n", Value::Int(1))],
                    }],
                    status_code: 2,
                }],
            }],
        }],
    });
    let metrics = TelemetryRecord::Metrics(MetricsRequest {
        resource_metrics: vec![ResourceMetrics {
            resource: resource("svc"),
            scope_metrics: vec![ScopeMetrics {
                scope: "lib".into(),
                metrics: vec![metric("m", "ms", "what it is", None)],
            }],
        }],
    });
    let log = one_log("svc", "\u{1b}[0mhello", vec![kv_str("a", "b")]);
    for record in [traces, metrics, log] {
        let coloured = render(&record, true);
        let plain = render(&record, false);
        assert_ne!(coloured, plain);
        assert_eq!(without_colors(&coloured), plain);
        assert!(!plain.contains('\u{1b}'));
    }
}
