//! How usage is attributed, moved and kept from being counted twice.

use otel_logger::agent::claude_code_name;
use otel_logger::aggregator::stats::Bucket;
use otel_logger::aggregator::{Aggregator, UsageSnapshot};
use otel_logger::double::Double;
use otel_logger::otlp::{
    AnyValue, Event, Histogram, HistogramDataPoint, KeyValue, LogRecord, LogsRequest, Metric,
    MetricData, MetricsRequest, NumberDataPoint, NumberValue, Resource, ResourceLogs,
    ResourceMetrics, ResourceSpans, ScopeLogs, ScopeMetrics, ScopeSpans, Span, Sum, TraceRequest,
    Value,
};

const TUI: &str = "codex_cli_rs";
const EXEC: &str = "codex_exec";

fn text(key: &str, value: &str) -> KeyValue {
    KeyValue {
        key: key.to_string(),
        value: Some(AnyValue { value: Some(Value::Text(value.to_string())) }),
    }
}

fn number(key: &str, value: f64) -> KeyValue {
    let value = Value::Double(Double { bits: value.to_bits(), text: value.to_string() });
    KeyValue { key: key.to_string(), value: Some(AnyValue { value: Some(value) }) }
}

fn from(service: &str) -> Option<Resource> {
    Some(Resource { attributes: vec![text("service.name", service)] })
}

fn record(body: &str, event_name: &str, attributes: Vec<KeyValue>) -> LogRecord {
    LogRecord {
        time_unix_nano: 0,
        severity_number: 0,
        severity_text: String::new(),
        body: Some(AnyValue { value: Some(Value::Text(body.to_string())) }),
        attributes,
        event_name: event_name.to_string(),
    }
}

fn logs(service: &str, log_records: Vec<LogRecord>) -> LogsRequest {
    LogsRequest {
        resource_logs: vec![ResourceLogs {
            resource: from(service),
            scope_logs: vec![ScopeLogs { scope: String::new(), log_records }],
        }],
    }
}

fn completion(mut attributes: Vec<KeyValue>) -> LogRecord {
    attributes.push(text("event.name", "codex.sse_event"));
    attributes.push(text("event.kind", "response.completed"));
    record("", "", attributes)
}

fn session(id: &str, provider: &str, effort: &str) -> Vec<KeyValue> {
    vec![
        text("conversation.id", id),
        text("provider_name", provider),
        text("model", "gpt-5.5"),
        text("reasoning_effort", effort),
    ]
}

fn spans(service: &str, spans: Vec<Span>) -> TraceRequest {
    TraceRequest {
        resource_spans: vec![ResourceSpans {
            resource: from(service),
            scope_spans: vec![ScopeSpans { scope: String::new(), spans }],
        }],
    }
}

fn span(name: &str, attributes: Vec<KeyValue>, events: Vec<Event>) -> Span {
    Span {
        trace_id: vec![1; 16],
        span_id: vec![2; 8],
        name: name.to_string(),
        start_time_unix_nano: 1,
        end_time_unix_nano: 2,
        attributes,
        events,
        status_code: 0,
    }
}

fn metrics(service: &str, name: &str, data: MetricData) -> MetricsRequest {
    MetricsRequest {
        resource_metrics: vec![ResourceMetrics {
            resource: from(service),
            scope_metrics: vec![ScopeMetrics {
                scope: String::new(),
                metrics: vec![Metric {
                    name: name.to_string(),
                    description: String::new(),
                    unit: String::new(),
                    data: Some(data),
                }],
            }],
        }],
    }
}

fn increments(points: Vec<(Vec<KeyValue>, i64)>) -> MetricData {
    let data_points = points
        .into_iter()
        .map(|(attributes, n)| NumberDataPoint {
            attributes,
            value: Some(NumberValue::AsInt(n)),
        })
        .collect();
    MetricData::Sum(Sum { data_points, aggregation_temporality: 1 })
}

fn distribution(attributes: Vec<KeyValue>, sum: f64) -> MetricData {
    let sum = Some(Double { bits: sum.to_bits(), text: sum.to_string() });
    let data_points = vec![HistogramDataPoint { attributes, count: 1, sum }];
    MetricData::Histogram(Histogram { data_points, aggregation_temporality: 1 })
}

fn tokens(snap: &UsageSnapshot, bucket: &str) -> Option<u64> {
    let agent = snap.agents.get("codex")?;
    agent.buckets.get(bucket).map(|b| b.stats.input_tokens)
}

fn adds_up(snap: &UsageSnapshot, agent: &str) -> bool {
    let agent = snap.agents.get(agent).unwrap();
    let sum: u64 = (0..agent.buckets.len()).map(|i| agent.buckets.row(i).value.stats.input_tokens).sum();
    sum == agent.total.input_tokens
}

#[test]
fn every_codex_process_is_recognised_and_no_other_service() {
    for service in [TUI, EXEC, "codex-app-server", "codex_mcp_server"] {
        let mut agg = Aggregator::new();
        let log = completion(vec![text("model", "gpt-5.5"), text("input_token_count", "7")]);
        assert_eq!(agg.ingest_logs(&logs(service, vec![log])), 1);
        assert_eq!(tokens(&agg.snapshot(), "OpenAI/gpt-5.5/unknown"), Some(7));
    }
    let mut agg = Aggregator::new();
    let log = completion(vec![text("model", "gpt-5.5"), text("input_token_count", "7")]);
    assert_eq!(agg.ingest_logs(&logs("codex", vec![log])), 0);
    let turns = increments(vec![(vec![text("model", "gpt-5.5")], 1)]);
    assert_eq!(agg.ingest_metrics(&metrics("codex", "codex.conversation.turn.count", turns)), 0);
    assert_eq!(agg.snapshot().agents.len(), 0);
}

#[test]
fn cache_writes_of_codex_count_as_cache_creation() {
    let mut agg = Aggregator::new();
    let log = completion(vec![
        text("model", "gpt-5.5"),
        text("input_token_count", "5"),
        text("tool_token_count", "5"),
        text("cache_write_token_count", "3"),
    ]);
    assert_eq!(agg.ingest_logs(&logs(EXEC, vec![log])), 1);
    let point = distribution(
        vec![text("model", "gpt-6"), text("token_type", "cache_write_input")],
        4.0,
    );
    assert_eq!(agg.ingest_metrics(&metrics(EXEC, "codex.turn.token_usage", point)), 1);
    assert_eq!(agg.snapshot().agents.get("codex").unwrap().total.cache_creation_tokens, 7);
}

#[test]
fn a_conversation_start_is_recognised_by_any_of_its_names() {
    let starts = "codex.conversation_starts";
    let mut named = session("c", "azure", "high");
    named.push(text("event.name", starts));
    for log in [
        record(starts, "", session("c", "azure", "high")),
        record("", starts, session("c", "azure", "high")),
        record("", "", named),
    ] {
        let mut agg = Aggregator::new();
        let done = completion(vec![text("conversation.id", "c"), text("input_token_count", "7")]);
        agg.ingest_logs(&logs(EXEC, vec![log, done]));
        assert_eq!(tokens(&agg.snapshot(), "azure/gpt-5.5/high"), Some(7));
    }
    let mut agg = Aggregator::new();
    let mut attributes = session("c", "azure", "high");
    attributes.push(text("event.name", starts));
    let event = Event { time_unix_nano: 0, name: "src/session.rs:10".to_string(), attributes };
    let init = span("session_init", vec![], vec![event]);
    assert_eq!(agg.ingest_traces(&spans(EXEC, vec![init])), 1);
    let done = completion(vec![text("conversation.id", "c"), text("input_token_count", "7")]);
    agg.ingest_logs(&logs(EXEC, vec![done]));
    assert_eq!(tokens(&agg.snapshot(), "azure/gpt-5.5/high"), Some(7));
}

#[test]
fn a_late_conversation_takes_its_usage_and_the_buckets_add_up() {
    let mut agg = Aggregator::new();
    let of = |id: &str, effort: &str, n: &str| {
        completion(vec![
            text("conversation.id", id),
            text("model", "gpt-5.5"),
            text("model_reasoning_effort", effort),
            text("input_token_count", n),
        ])
    };
    agg.ingest_logs(&logs(
        EXEC,
        vec![of("a", "xhigh", "10"), of("a", "", "20"), of("a", "", "30"), of("b", "", "400")],
    ));
    let before = agg.snapshot();
    assert_eq!(tokens(&before, "OpenAI/gpt-5.5/xhigh"), Some(10));
    assert_eq!(tokens(&before, "OpenAI/gpt-5.5/unknown"), Some(450));

    agg.ingest_logs(&logs(
        EXEC,
        vec![record("codex.conversation_starts", "", session("a", "azure", "high"))],
    ));
    let after = agg.snapshot();
    assert_eq!(tokens(&after, "azure/gpt-5.5/xhigh"), Some(10));
    assert_eq!(tokens(&after, "azure/gpt-5.5/high"), Some(50));
    assert_eq!(tokens(&after, "OpenAI/gpt-5.5/unknown"), Some(400));
    assert_eq!(tokens(&after, "OpenAI/gpt-5.5/xhigh"), None);
    assert_eq!(after.agents.get("codex").unwrap().total.input_tokens, 460);
    assert!(adds_up(&before, "codex") && adds_up(&after, "codex"));
    assert!(!before.same_totals(&after));
    assert!(after.same_totals(&agg.snapshot()));
}

#[test]
fn a_span_states_the_effort_of_its_own_conversation_only() {
    let mut agg = Aggregator::new();
    agg.ingest_logs(&logs(
        EXEC,
        vec![
            record("codex.conversation_starts", "", session("a", "azure", "low")),
            record("codex.conversation_starts", "", session("b", "azure", "low")),
        ],
    ));
    let states = vec![
        text("conversation.id", "a"),
        text("codex.request.reasoning_effort", "high"),
    ];
    assert_eq!(agg.ingest_traces(&spans(EXEC, vec![span("handle_responses", states, vec![])])), 1);
    assert!(agg.snapshot().last_updated.is_none());
    for id in ["a", "b"] {
        let done = completion(vec![text("conversation.id", id), text("input_token_count", "7")]);
        agg.ingest_logs(&logs(EXEC, vec![done]));
    }
    let snap = agg.snapshot();
    assert_eq!(tokens(&snap, "azure/gpt-5.5/high"), Some(7));
    assert_eq!(tokens(&snap, "azure/gpt-5.5/low"), Some(7));
}

#[test]
fn spans_are_no_usage() {
    let mut agg = Aggregator::new();
    let turn = span(
        "session_task.turn",
        vec![number("codex.turn.token_usage.input_tokens", 100.0)],
        vec![],
    );
    assert_eq!(agg.ingest_traces(&spans(EXEC, vec![turn])), 0);
    assert_eq!(agg.snapshot().agents.len(), 0);
}

#[test]
fn metrics_take_the_conversation_of_their_own_process() {
    let mut agg = Aggregator::new();
    agg.ingest_logs(&logs(
        TUI,
        vec![record("codex.conversation_starts", "", session("a", "azure", "high"))],
    ));
    let point = |n| {
        distribution(vec![text("model", "gpt-5.5"), text("token_type", "input")], n)
    };
    agg.ingest_metrics(&metrics(EXEC, "codex.turn.token_usage", point(5.0)));
    agg.ingest_metrics(&metrics(TUI, "codex.turn.token_usage", point(6.0)));
    let snap = agg.snapshot();
    assert_eq!(tokens(&snap, "OpenAI/gpt-5.5/unknown"), Some(5));
    assert_eq!(tokens(&snap, "azure/gpt-5.5/high"), Some(6));
}

#[test]
fn the_first_token_source_of_a_codex_model_stays() {
    let mut agg = Aggregator::new();
    let point = distribution(vec![text("model", "gpt-5.5"), text("token_type", "input")], 5.0);
    agg.ingest_metrics(&metrics(EXEC, "codex.turn.token_usage", point));
    let done = completion(vec![text("model", "gpt-5.5"), text("input_token_count", "7")]);
    assert_eq!(agg.ingest_logs(&logs(EXEC, vec![done])), 0);
    assert_eq!(agg.snapshot().agents.get("codex").unwrap().total.input_tokens, 5);
}

#[test]
fn a_request_log_replaces_all_metric_samples_before_it() {
    let service = claude_code_name();
    let of = |kind: &str| vec![text("model", "m[1m]"), text("effort", "max"), text("type", kind)];
    let request = || {
        record(
            "claude_code.api_request",
            "",
            vec![
                text("model", "m"),
                text("effort", "max"),
                text("input_tokens", "40"),
                text("output_tokens", "2"),
                text("duration_ms", "9"),
            ],
        )
    };
    let mut agg = Aggregator::new();
    let points = vec![(of("input"), 30), (of("input"), 10), (of("output"), 2), (of("other"), 5)];
    let hits = agg.ingest_metrics(&metrics(&service, "claude_code.token.usage", increments(points)));
    assert_eq!(hits, 3);
    agg.ingest_logs(&logs(&service, vec![request()]));
    let late = increments(vec![(of("input"), 40)]);
    assert_eq!(agg.ingest_metrics(&metrics(&service, "claude_code.token.usage", late)), 0);

    let snap = agg.snapshot();
    let agent = snap.agents.get(&service).unwrap();
    assert_eq!(agent.total.input_tokens, 40);
    assert_eq!(agent.total.output_tokens, 2);
    assert_eq!(agent.total.request_count, 1);
    assert_eq!(agent.total.duration_ms, 9);
    assert_eq!(agent.buckets.len(), 1);
    assert!(agent.buckets.get("anthropic/m[1m]/max").unwrap().stats == agent.total);
}

#[test]
fn numbers_out_of_range_count_nothing() {
    for bad in [f64::NAN, f64::INFINITY, f64::NEG_INFINITY, 1e300, -5.0] {
        let mut agg = Aggregator::new();
        let log = record(
            "claude_code.api_request",
            "",
            vec![text("model", "m"), number("input_tokens", bad), number("duration_ms", bad)],
        );
        agg.ingest_logs(&logs(&claude_code_name(), vec![log]));
        let snap = agg.snapshot();
        let total = snap.agents.get(&claude_code_name()).unwrap().total;
        assert_eq!((total.request_count, total.input_tokens, total.duration_ms), (1, 0, 0));
    }
}

#[test]
fn names_with_slashes_do_not_share_a_key() {
    let a = Bucket::from_parts("x/y", "z", "high");
    let b = Bucket::from_parts("x", "y/z", "high");
    assert_eq!(a.key(), "x%2Fy/z/high");
    assert_eq!(b.key(), "x/y%2Fz/high");
    assert_eq!(Bucket::from_parts("x%2Fy", "", "").key(), "x%252Fy/unknown/unknown");
}

#[test]
fn times_of_start_and_last_sample_are_published() {
    let mut agg = Aggregator::new_at(0);
    assert_eq!(agg.snapshot().started_at, "1970-01-01T00:00:00Z");
    let done = completion(vec![text("model", "gpt-5.5"), text("input_token_count", "7")]);
    agg.ingest_logs_at(&logs(EXEC, vec![done]), 1_500_000_000);
    let snap = agg.snapshot();
    assert_eq!(snap.started_at, "1970-01-01T00:00:00Z");
    assert_eq!(snap.last_updated, Some("1970-01-01T00:00:01.5Z".to_string()));
}

#[test]
fn a_default_aggregator_is_empty() {
    let snap = Aggregator::default().snapshot();
    assert!(snap.agents.is_empty());
    assert_eq!(snap.last_updated, None);
    assert!(snap.started_at.ends_with('Z'));
}

#[test]
fn a_span_of_one_conversation_leaves_the_last_one() {
    let states = |id: &str| {
        let attributes = vec![
            text("conversation.id", id),
            text("codex.request.reasoning_effort", "high"),
        ];
        spans(EXEC, vec![span("handle_responses", attributes, vec![])])
    };
    let point = || {
        let attributes = vec![text("model", "gpt-6"), text("token_type", "input")];
        metrics(EXEC, "codex.turn.token_usage", distribution(attributes, 5.0))
    };
    let mut agg = Aggregator::new();
    let starts = record("codex.conversation_starts", "", session("a", "azure", "low"));
    agg.ingest_logs(&logs(EXEC, vec![starts]));
    assert_eq!(agg.ingest_traces(&states("b")), 1);
    agg.ingest_metrics(&point());
    assert_eq!(tokens(&agg.snapshot(), "azure/gpt-6/low"), Some(5));
    let done = completion(vec![text("model", "gpt-7"), text("input_token_count", "7")]);
    agg.ingest_logs(&logs(EXEC, vec![done]));
    assert_eq!(tokens(&agg.snapshot(), "azure/gpt-7/low"), Some(7));

    assert_eq!(agg.ingest_traces(&states("a")), 1);
    agg.ingest_metrics(&point());
    assert_eq!(tokens(&agg.snapshot(), "azure/gpt-6/high"), Some(5));
    assert_eq!(tokens(&agg.snapshot(), "azure/gpt-6/low"), Some(5));

    let mut fresh = Aggregator::new();
    assert_eq!(fresh.ingest_traces(&states("b")), 1);
    fresh.ingest_metrics(&point());
    assert_eq!(tokens(&fresh.snapshot(), "OpenAI/gpt-6/unknown"), Some(5));
}

#[test]
fn a_completion_without_a_conversation_takes_the_last_that_was_reported() {
    let mut agg = Aggregator::new();
    let starts = record("codex.conversation_starts", "", session("a", "azure", "high"));
    agg.ingest_logs(&logs(TUI, vec![starts]));
    let done = completion(vec![text("input_token_count", "7")]);
    agg.ingest_logs(&logs(EXEC, vec![done]));
    assert_eq!(tokens(&agg.snapshot(), "azure/gpt-5.5/high"), Some(7));
}

#[test]
fn spans_move_usage_within_a_model_only() {
    let mut agg = Aggregator::new();
    let of = |id: &str, model: &str, n: &str| {
        completion(vec![
            text("conversation.id", id),
            text("model", model),
            text("input_token_count", n),
        ])
    };
    agg.ingest_logs(&logs(EXEC, vec![of("a", "m", "10"), of("a", "n", "20"), of("b", "m", "40")]));
    let before = agg.snapshot();
    let attributes = vec![
        text("conversation.id", "a"),
        text("model", "m"),
        text("codex.request.reasoning_effort", "high"),
    ];
    agg.ingest_traces(&spans(EXEC, vec![span("handle_responses", attributes, vec![])]));
    let after = agg.snapshot();
    assert_eq!(tokens(&after, "OpenAI/m/high"), Some(10));
    assert_eq!(tokens(&after, "OpenAI/m/unknown"), Some(40));
    assert_eq!(tokens(&after, "OpenAI/n/unknown"), Some(20));
    assert_eq!(after.last_updated, before.last_updated);
    assert_eq!(after.agents.len(), before.agents.len());
    assert!(after.agents.get("codex").unwrap().total == before.agents.get("codex").unwrap().total);
    assert!(adds_up(&after, "codex"));
}

#[test]
fn the_buckets_of_requests_and_metrics_add_up() {
    let service = claude_code_name();
    let request = |model: &str, effort: &str, n: &str| {
        record(
            "claude_code.api_request",
            "",
            vec![text("model", model), text("effort", effort), text("input_tokens", n)],
        )
    };
    let of = |model: &str, effort: &str| {
        vec![text("model", model), text("effort", effort), text("type", "input")]
    };
    let mut agg = Aggregator::new();
    agg.ingest_logs(&logs(&service, vec![request("m", "low", "3"), request("k", "low", "100")]));
    assert!(adds_up(&agg.snapshot(), &service));
    let points = vec![(of("m[1m]", "low"), 9), (of("m[1m]", "high"), 20), (of("k", "high"), 5)];
    agg.ingest_metrics(&metrics(&service, "claude_code.token.usage", increments(points)));
    let folded = agg.snapshot();
    assert!(adds_up(&folded, &service));
    assert_eq!(folded.agents.get(&service).unwrap().total.input_tokens, 128);
    agg.ingest_logs(&logs(&service, vec![request("m", "high", "21"), request("m[1m]", "low", "1")]));
    let replaced = agg.snapshot();
    let agent = replaced.agents.get(&service).unwrap();
    assert!(adds_up(&replaced, &service));
    assert_eq!(agent.total.input_tokens, 130);
    assert_eq!(agent.buckets.get("anthropic/m[1m]/high").unwrap().stats.input_tokens, 21);
    assert_eq!(agent.buckets.get("anthropic/m[1m]/low").unwrap().stats.input_tokens, 4);
    for i in 0..agent.buckets.len() {
        let row = agent.buckets.row(i);
        let b = &row.value;
        assert_eq!(row.key, Bucket::from_parts(&b.provider, &b.model, &b.effort).key());
    }
}

#[test]
fn a_span_without_a_conversation_states_the_effort_of_the_last() {
    let mut agg = Aggregator::new();
    let starts = record("codex.conversation_starts", "", session("a", "azure", "low"));
    agg.ingest_logs(&logs(EXEC, vec![starts]));
    let attributes = vec![text("codex.request.reasoning_effort", "high")];
    assert_eq!(agg.ingest_traces(&spans(TUI, vec![span("handle_responses", attributes, vec![])])), 1);
    let done = completion(vec![text("conversation.id", "a"), text("input_token_count", "7")]);
    agg.ingest_logs(&logs(EXEC, vec![done]));
    let done = completion(vec![text("input_token_count", "8")]);
    agg.ingest_logs(&logs(TUI, vec![done]));
    assert_eq!(tokens(&agg.snapshot(), "azure/gpt-5.5/high"), Some(15));

    let point = |service: &str| {
        let attributes = vec![text("model", "gpt-6"), text("token_type", "input")];
        metrics(service, "codex.turn.token_usage", distribution(attributes, 5.0))
    };
    agg.ingest_metrics(&point(EXEC));
    agg.ingest_metrics(&point(TUI));
    let snap = agg.snapshot();
    assert_eq!(tokens(&snap, "azure/gpt-6/low"), Some(5));
    assert_eq!(tokens(&snap, "OpenAI/gpt-6/high"), Some(5));
}

#[test]
fn a_tiny_cost_is_usage() {
    let service = claude_code_name();
    let mut agg = Aggregator::new();
    let of = |kind: &str| vec![text("model", "m"), text("type", kind)];
    let request = record(
        "claude_code.api_request",
        "",
        vec![text("model", "m"), number("cost_usd", 1e-30)],
    );
    agg.ingest_logs(&logs(&service, vec![request]));
    let late = increments(vec![(of("input"), 40)]);
    assert_eq!(agg.ingest_metrics(&metrics(&service, "claude_code.token.usage", late)), 0);
    assert!(agg.snapshot().agents.get(&service).unwrap().total.has_usage());
}
