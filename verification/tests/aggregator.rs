//! Totals out of the telemetry of coding agents.

use otel_logger::agent::claude_code_name;
use otel_logger::aggregator::codex::{histogram_sum_as_u64, number_value_as_u64};
use otel_logger::aggregator::stats::ModelStats;
use otel_logger::aggregator::Aggregator;
use otel_logger::double::{Double, Usd};
use otel_logger::otlp::{
    AnyValue, Event, Histogram, HistogramDataPoint, KeyValue, LogRecord, LogsRequest, Metric,
    MetricData, MetricsRequest, NumberDataPoint, NumberValue, Resource, ResourceLogs,
    ResourceMetrics, ResourceSpans, ScopeLogs, ScopeMetrics, ScopeSpans, Span, Sum, TraceRequest,
    Value,
};

const SERVICE_CODEX_EXEC: &str = "codex_exec";
const AGENT_CODEX: &str = "codex";
const PROVIDER_OPENAI: &str = "OpenAI";
const UNKNOWN: &str = "unknown";

/// The name of a model of the Opus family, with a suffix.
fn opus(suffix: &str) -> String {
    format!("claude_opus-4-7{suffix}").replacen('_', "-", 1)
}

/// The key of its bucket for the greatest effort.
fn opus_bucket(suffix: &str) -> String {
    format!("anthropic/{}/max", opus(suffix))
}

fn dollars(u: Usd) -> f64 {
    u.units as f64 / 18_446_744_073_709_551_616.0
}

fn double(x: f64) -> Double {
    Double { bits: x.to_bits(), text: x.to_string() }
}

fn kv(key: &str, value: Value) -> KeyValue {
    KeyValue { key: key.to_string(), value: Some(AnyValue { value: Some(value) }) }
}

fn kv_str(key: &str, value: &str) -> KeyValue {
    kv(key, Value::Text(value.to_string()))
}

fn kv_int(key: &str, value: i64) -> KeyValue {
    kv(key, Value::Int(value))
}

fn kv_double(key: &str, value: f64) -> KeyValue {
    kv(key, Value::Double(double(value)))
}

fn make_int_dp(attributes: Vec<KeyValue>, value: i64) -> NumberDataPoint {
    NumberDataPoint { attributes, value: Some(NumberValue::AsInt(value)) }
}

fn make_double_dp(attributes: Vec<KeyValue>, value: f64) -> NumberDataPoint {
    NumberDataPoint { attributes, value: Some(NumberValue::AsDouble(double(value))) }
}

fn make_hist_dp(attributes: Vec<KeyValue>, sum: f64) -> HistogramDataPoint {
    HistogramDataPoint { attributes, count: 1, sum: Some(double(sum)) }
}

fn delta_sum(data_points: Vec<NumberDataPoint>) -> MetricData {
    MetricData::Sum(Sum { data_points, aggregation_temporality: 1 })
}

fn delta_hist(data_points: Vec<HistogramDataPoint>) -> MetricData {
    MetricData::Histogram(Histogram { data_points, aggregation_temporality: 1 })
}

fn metric(name: &str, unit: &str, data: MetricData) -> Metric {
    Metric {
        name: name.into(),
        description: String::new(),
        unit: unit.into(),
        data: Some(data),
    }
}

fn claude_token_metric(model: &str, effort: &str, typ: &str, value: i64) -> Metric {
    let attrs = vec![kv_str("model", model), kv_str("effort", effort), kv_str("type", typ)];
    metric("claude_code.token.usage", "tokens", delta_sum(vec![make_int_dp(attrs, value)]))
}

fn claude_cost_metric(model: &str, effort: &str, value: f64) -> Metric {
    let attrs = vec![kv_str("model", model), kv_str("effort", effort)];
    metric("claude_code.cost.usage", "USD", delta_sum(vec![make_double_dp(attrs, value)]))
}

fn codex_token_metric(model: &str, token_type: &str, sum: f64) -> Metric {
    let attrs = vec![kv_str("model", model), kv_str("token_type", token_type)];
    metric("codex.turn.token_usage", "", delta_hist(vec![make_hist_dp(attrs, sum)]))
}

fn codex_turn_count(model: &str, value: i64) -> Metric {
    let attrs = vec![kv_str("model", model)];
    metric("codex.conversation.turn.count", "", delta_sum(vec![make_int_dp(attrs, value)]))
}

fn codex_duration_metric(model: &str, sum: f64) -> Metric {
    let attrs = vec![kv_str("model", model)];
    metric("codex.turn.e2e_duration_ms", "", delta_hist(vec![make_hist_dp(attrs, sum)]))
}

fn resource(service: &str) -> Option<Resource> {
    Some(Resource { attributes: vec![kv_str("service.name", service)] })
}

fn make_metric_req(service: &str, metrics: Vec<Metric>) -> MetricsRequest {
    MetricsRequest {
        resource_metrics: vec![ResourceMetrics {
            resource: resource(service),
            scope_metrics: vec![ScopeMetrics { scope: String::new(), metrics }],
        }],
    }
}

fn make_trace_req(service: &str, spans: Vec<Span>) -> TraceRequest {
    TraceRequest {
        resource_spans: vec![ResourceSpans {
            resource: resource(service),
            scope_spans: vec![ScopeSpans { scope: String::new(), spans }],
        }],
    }
}

fn span(name: &str, attributes: Vec<KeyValue>, events: Vec<Event>) -> Span {
    Span {
        trace_id: vec![1; 16],
        span_id: vec![2; 8],
        name: name.into(),
        start_time_unix_nano: 1,
        end_time_unix_nano: 2,
        attributes,
        events,
        status_code: 0,
    }
}

fn handle_responses_span(effort: &str) -> Span {
    handle_responses_span_with_attrs(vec![kv_str("codex.request.reasoning_effort", effort)])
}

fn handle_responses_span_with_attrs(attrs: Vec<KeyValue>) -> Span {
    span("handle_responses", attrs, vec![])
}

fn conversation_starts_span(attrs: Vec<KeyValue>) -> Span {
    let event = Event {
        time_unix_nano: 0,
        name: "codex.conversation_starts".into(),
        attributes: attrs,
    };
    span("session_init", vec![], vec![event])
}

fn make_log_req(service: &str, body: &str, attributes: Vec<KeyValue>) -> LogsRequest {
    LogsRequest {
        resource_logs: vec![ResourceLogs {
            resource: resource(service),
            scope_logs: vec![ScopeLogs {
                scope: String::new(),
                log_records: vec![LogRecord {
                    time_unix_nano: 0,
                    severity_number: 0,
                    severity_text: String::new(),
                    body: Some(AnyValue { value: Some(Value::Text(body.to_string())) }),
                    attributes,
                    event_name: String::new(),
                }],
            }],
        }],
    }
}

#[test]
fn model_stats_add_saturates_untrusted_totals() {
    let mut stats = ModelStats {
        request_count: u64::MAX,
        input_tokens: u64::MAX,
        output_tokens: u64::MAX,
        cache_read_tokens: u64::MAX,
        cache_creation_tokens: u64::MAX,
        reasoning_output_tokens: u64::MAX,
        cost_usd: double(f64::MAX).usd(),
        duration_ms: u64::MAX,
    };

    stats.add(&ModelStats {
        request_count: 1,
        input_tokens: 1,
        output_tokens: 1,
        cache_read_tokens: 1,
        cache_creation_tokens: 1,
        reasoning_output_tokens: 1,
        cost_usd: double(f64::MAX).usd(),
        duration_ms: 1,
    });

    assert_eq!(stats.request_count, u64::MAX);
    assert_eq!(stats.input_tokens, u64::MAX);
    assert_eq!(stats.output_tokens, u64::MAX);
    assert_eq!(stats.cache_read_tokens, u64::MAX);
    assert_eq!(stats.cache_creation_tokens, u64::MAX);
    assert_eq!(stats.reasoning_output_tokens, u64::MAX);
    assert_eq!(stats.duration_ms, u64::MAX);
    assert!(dollars(stats.cost_usd).is_finite(), "the cost stays finite");
    assert_eq!(stats.cost_usd, double(f64::MAX).usd());
}

#[test]
fn claude_metrics_aggregate_per_bucket() {
    let mut agg = Aggregator::new();
    let req = make_metric_req(
        &claude_code_name(),
        vec![
            claude_token_metric(&opus("[1m]"), "max", "input", 100),
            claude_token_metric(&opus("[1m]"), "max", "output", 50),
            claude_token_metric(&opus("[1m]"), "max", "cacheRead", 1000),
            claude_token_metric(&opus("[1m]"), "max", "cacheCreation", 200),
            claude_cost_metric(&opus("[1m]"), "max", 1.25),
        ],
    );
    agg.ingest_metrics(&req);
    let snap = agg.snapshot();
    let agent = snap.agents.get(&claude_code_name()).unwrap();
    let bucket = agent
        .buckets
        .get(&opus_bucket("[1m]"))
        .unwrap();
    assert_eq!(bucket.stats.input_tokens, 100);
    assert_eq!(bucket.stats.output_tokens, 50);
    assert_eq!(bucket.stats.cache_read_tokens, 1000);
    assert_eq!(bucket.stats.cache_creation_tokens, 200);
    assert!((dollars(bucket.stats.cost_usd) - 1.25).abs() < 1e-9);
}

#[test]
fn claude_log_request_count_merges_into_metric_bucket() {
    let mut agg = Aggregator::new();
    let metric_req = make_metric_req(
        &claude_code_name(),
        vec![
            claude_token_metric(&opus("[1m]"), "max", "input", 10),
            claude_cost_metric(&opus("[1m]"), "max", 0.5),
        ],
    );
    agg.ingest_metrics(&metric_req);
    let log_req = make_log_req(
        &claude_code_name(),
        "claude_code.api_request",
        vec![
            kv_str("model", &opus("")),
            kv_str("effort", "max"),
            kv_int("duration_ms", 2500),
        ],
    );
    agg.ingest_logs(&log_req);
    let snap = agg.snapshot();
    let agent = snap.agents.get(&claude_code_name()).unwrap();
    assert!(
        !agent.buckets.contains_key(&opus_bucket("")),
        "bare bucket should not exist after canonicalization"
    );
    let bucket = agent
        .buckets
        .get(&opus_bucket("[1m]"))
        .unwrap();
    assert_eq!(bucket.stats.request_count, 1);
    assert_eq!(bucket.stats.duration_ms, 2500);
    assert_eq!(bucket.stats.input_tokens, 10);
    assert!((dollars(bucket.stats.cost_usd) - 0.5).abs() < 1e-9);
}

#[test]
fn claude_log_then_metric_folds_bare_bucket_into_full() {
    let mut agg = Aggregator::new();
    let log_req = make_log_req(
        &claude_code_name(),
        "claude_code.api_request",
        vec![
            kv_str("model", &opus("")),
            kv_str("effort", "max"),
            kv_int("duration_ms", 1000),
        ],
    );
    agg.ingest_logs(&log_req);
    let metric_req = make_metric_req(
        &claude_code_name(),
        vec![claude_token_metric(
            &opus("[1m]"),
            "max",
            "input",
            7,
        )],
    );
    agg.ingest_metrics(&metric_req);
    let snap = agg.snapshot();
    let agent = snap.agents.get(&claude_code_name()).unwrap();
    assert!(!agent.buckets.contains_key(&opus_bucket("")));
    let bucket = agent
        .buckets
        .get(&opus_bucket("[1m]"))
        .unwrap();
    assert_eq!(bucket.stats.request_count, 1);
    assert_eq!(bucket.stats.duration_ms, 1000);
    assert_eq!(bucket.stats.input_tokens, 7);
}

#[test]
fn claude_api_request_log_counts_usage_without_metrics() {
    let mut agg = Aggregator::new();
    let log_req = make_log_req(
        &claude_code_name(),
        "claude_code.api_request",
        vec![
            kv_str("model", &opus("")),
            kv_str("effort", "max"),
            kv_int("input_tokens", 3),
            kv_int("output_tokens", 20),
            kv_int("cache_read_tokens", 100),
            kv_int("cache_creation_tokens", 7),
            kv_double("cost_usd", 0.0123),
            kv_int("duration_ms", 1200),
        ],
    );
    agg.ingest_logs(&log_req);
    let snap = agg.snapshot();
    let agent = snap.agents.get(&claude_code_name()).unwrap();
    let bucket = agent.buckets.get(&opus_bucket("")).unwrap();
    assert_eq!(bucket.stats.request_count, 1);
    assert_eq!(bucket.stats.input_tokens, 3);
    assert_eq!(bucket.stats.output_tokens, 20);
    assert_eq!(bucket.stats.cache_read_tokens, 100);
    assert_eq!(bucket.stats.cache_creation_tokens, 7);
    assert_eq!(bucket.stats.duration_ms, 1200);
    assert!((dollars(bucket.stats.cost_usd) - 0.0123).abs() < 1e-9);
}

#[test]
fn claude_log_usage_prevents_later_metric_double_count() {
    let mut agg = Aggregator::new();
    let log_req = make_log_req(
        &claude_code_name(),
        "claude_code.api_request",
        vec![
            kv_str("model", &opus("")),
            kv_str("effort", "max"),
            kv_int("input_tokens", 10),
            kv_int("output_tokens", 5),
            kv_double("cost_usd", 0.5),
            kv_int("duration_ms", 900),
        ],
    );
    agg.ingest_logs(&log_req);
    let metric_req = make_metric_req(
        &claude_code_name(),
        vec![
            claude_token_metric(&opus(""), "max", "input", 999),
            claude_cost_metric(&opus(""), "max", 9.0),
        ],
    );
    agg.ingest_metrics(&metric_req);
    let snap = agg.snapshot();
    let bucket = snap
        .agents
        .get(&claude_code_name())
        .unwrap()
        .buckets
        .get(&opus_bucket(""))
        .unwrap();
    assert_eq!(bucket.stats.request_count, 1);
    assert_eq!(bucket.stats.input_tokens, 10);
    assert_eq!(bucket.stats.output_tokens, 5);
    assert_eq!(bucket.stats.duration_ms, 900);
    assert!((dollars(bucket.stats.cost_usd) - 0.5).abs() < 1e-9);
}

#[test]
fn claude_log_usage_replaces_earlier_metric_source() {
    let mut agg = Aggregator::new();
    let metric_req = make_metric_req(
        &claude_code_name(),
        vec![
            claude_token_metric(&opus("[1m]"), "max", "input", 999),
            claude_cost_metric(&opus("[1m]"), "max", 9.0),
        ],
    );
    agg.ingest_metrics(&metric_req);
    let log_req = make_log_req(
        &claude_code_name(),
        "claude_code.api_request",
        vec![
            kv_str("model", &opus("")),
            kv_str("effort", "max"),
            kv_int("input_tokens", 10),
            kv_int("output_tokens", 5),
            kv_double("cost_usd", 0.5),
            kv_int("duration_ms", 900),
        ],
    );
    agg.ingest_logs(&log_req);
    let snap = agg.snapshot();
    let agent = snap.agents.get(&claude_code_name()).unwrap();
    assert!(!agent.buckets.contains_key(&opus_bucket("")));
    let bucket = agent
        .buckets
        .get(&opus_bucket("[1m]"))
        .unwrap();
    assert_eq!(bucket.stats.request_count, 1);
    assert_eq!(bucket.stats.input_tokens, 10);
    assert_eq!(bucket.stats.output_tokens, 5);
    assert_eq!(bucket.stats.duration_ms, 900);
    assert!((dollars(bucket.stats.cost_usd) - 0.5).abs() < 1e-9);
    assert_eq!(agent.total.input_tokens, 10);
    assert!((dollars(agent.total.cost_usd) - 0.5).abs() < 1e-9);
}

#[test]
fn codex_token_metric_skips_total_and_maps_others() {
    let mut agg = Aggregator::new();
    let req = make_metric_req(
        SERVICE_CODEX_EXEC,
        vec![
            codex_token_metric("gpt-5.5", "input", 100.0),
            codex_token_metric("gpt-5.5", "output", 20.0),
            codex_token_metric("gpt-5.5", "cached_input", 50.0),
            codex_token_metric("gpt-5.5", "reasoning_output", 30.0),
            codex_token_metric("gpt-5.5", "total", 9999.0),
        ],
    );
    agg.ingest_metrics(&req);
    let snap = agg.snapshot();
    let agent = snap.agents.get(AGENT_CODEX).unwrap();
    let bucket_key = format!("{PROVIDER_OPENAI}/gpt-5.5/{UNKNOWN}");
    let bucket = agent.buckets.get(&bucket_key).unwrap();
    assert_eq!(bucket.stats.input_tokens, 100);
    assert_eq!(bucket.stats.output_tokens, 20);
    assert_eq!(bucket.stats.cache_read_tokens, 50);
    assert_eq!(bucket.stats.reasoning_output_tokens, 30);
}

#[test]
fn codex_sse_response_completed_log_counts_token_usage() {
    let mut agg = Aggregator::new();
    agg.ingest_logs(&make_log_req(
        SERVICE_CODEX_EXEC,
        "codex.conversation_starts",
        vec![
            kv_str("provider_name", PROVIDER_OPENAI),
            kv_str("model", "gpt-5.5"),
            kv_str("reasoning_effort", "xhigh"),
        ],
    ));
    let count = agg.ingest_logs(&make_log_req(
        SERVICE_CODEX_EXEC,
        "",
        vec![
            kv_str("event.name", "codex.sse_event"),
            kv_str("event.kind", "response.completed"),
            kv_str("model", "gpt-5.5"),
            kv_str("input_token_count", "100"),
            kv_str("output_token_count", "20"),
            kv_int("cached_token_count", 50),
            kv_int("reasoning_token_count", 30),
            kv_str("tool_token_count", "120"),
        ],
    ));

    assert_eq!(count, 1);
    let snap = agg.snapshot();
    let agent = snap.agents.get(AGENT_CODEX).unwrap();
    let bucket = agent
        .buckets
        .get(&format!("{PROVIDER_OPENAI}/gpt-5.5/xhigh"))
        .unwrap();
    assert_eq!(bucket.stats.input_tokens, 100);
    assert_eq!(bucket.stats.output_tokens, 20);
    assert_eq!(bucket.stats.cache_read_tokens, 50);
    assert_eq!(bucket.stats.reasoning_output_tokens, 30);
    assert_eq!(bucket.stats.request_count, 0);
}

#[test]
fn codex_sse_uses_matching_conversation_effort_when_sessions_interleave() {
    let mut agg = Aggregator::new();
    agg.ingest_logs(&make_log_req(
        SERVICE_CODEX_EXEC,
        "codex.conversation_starts",
        vec![
            kv_str("conversation.id", "conv-xhigh"),
            kv_str("provider_name", PROVIDER_OPENAI),
            kv_str("model", "gpt-5.5"),
            kv_str("reasoning_effort", "xhigh"),
        ],
    ));
    agg.ingest_logs(&make_log_req(
        SERVICE_CODEX_EXEC,
        "codex.conversation_starts",
        vec![
            kv_str("conversation.id", "conv-medium"),
            kv_str("provider_name", PROVIDER_OPENAI),
            kv_str("model", "gpt-5.5"),
            kv_str("reasoning_effort", "medium"),
        ],
    ));

    let count = agg.ingest_logs(&make_log_req(
        SERVICE_CODEX_EXEC,
        "",
        vec![
            kv_str("event.name", "codex.sse_event"),
            kv_str("event.kind", "response.completed"),
            kv_str("conversation.id", "conv-xhigh"),
            kv_str("model", "gpt-5.5"),
            kv_str("input_token_count", "100"),
            kv_str("output_token_count", "20"),
            kv_int("cached_token_count", 50),
            kv_int("reasoning_token_count", 30),
            kv_str("tool_token_count", "120"),
        ],
    ));

    assert_eq!(count, 1);
    let snap = agg.snapshot();
    let agent = snap.agents.get(AGENT_CODEX).unwrap();
    assert!(
        !agent
            .buckets
            .contains_key(&format!("{PROVIDER_OPENAI}/gpt-5.5/medium"))
    );
    let bucket = agent
        .buckets
        .get(&format!("{PROVIDER_OPENAI}/gpt-5.5/xhigh"))
        .unwrap();
    assert_eq!(bucket.stats.input_tokens, 100);
    assert_eq!(bucket.stats.output_tokens, 20);
    assert_eq!(bucket.stats.cache_read_tokens, 50);
    assert_eq!(bucket.stats.reasoning_output_tokens, 30);
}

#[test]
fn codex_sse_tool_only_completion_is_ignored() {
    let mut agg = Aggregator::new();
    let count = agg.ingest_logs(&make_log_req(
        SERVICE_CODEX_EXEC,
        "",
        vec![
            kv_str("event.name", "codex.sse_event"),
            kv_str("event.kind", "response.completed"),
            kv_str("model", "gpt-5.5"),
            kv_str("input_token_count", "13145"),
            kv_str("output_token_count", "0"),
            kv_int("cached_token_count", 0),
            kv_int("reasoning_token_count", 0),
            kv_str("tool_token_count", "13145"),
        ],
    ));

    assert_eq!(count, 0);
    assert!(!agg.snapshot().agents.contains_key(AGENT_CODEX));
}

#[test]
fn codex_sse_with_unknown_conversation_id_does_not_borrow_other_session_effort() {
    let mut agg = Aggregator::new();
    agg.ingest_logs(&make_log_req(
        SERVICE_CODEX_EXEC,
        "codex.conversation_starts",
        vec![
            kv_str("conversation.id", "conv-medium"),
            kv_str("provider_name", PROVIDER_OPENAI),
            kv_str("model", "gpt-5.5"),
            kv_str("reasoning_effort", "medium"),
        ],
    ));
    let count = agg.ingest_logs(&make_log_req(
        SERVICE_CODEX_EXEC,
        "",
        vec![
            kv_str("event.name", "codex.sse_event"),
            kv_str("event.kind", "response.completed"),
            kv_str("conversation.id", "conv-missing"),
            kv_str("model", "gpt-5.5"),
            kv_str("input_token_count", "100"),
        ],
    ));

    assert_eq!(count, 1);
    let snap = agg.snapshot();
    let agent = snap.agents.get(AGENT_CODEX).unwrap();
    assert!(
        !agent
            .buckets
            .contains_key(&format!("{PROVIDER_OPENAI}/gpt-5.5/medium")),
        "usage must not go to the bucket of another conversation"
    );
    let bucket = agent
        .buckets
        .get(&format!("{PROVIDER_OPENAI}/gpt-5.5/{UNKNOWN}"))
        .unwrap();
    assert_eq!(bucket.stats.input_tokens, 100);
}

#[test]
fn codex_late_conversation_start_moves_unknown_conversation_sse_tokens() {
    let mut agg = Aggregator::new();
    agg.ingest_logs(&make_log_req(
        SERVICE_CODEX_EXEC,
        "",
        vec![
            kv_str("event.name", "codex.sse_event"),
            kv_str("event.kind", "response.completed"),
            kv_str("conversation.id", "conv-late"),
            kv_str("model", "gpt-5.5"),
            kv_str("input_token_count", "100"),
        ],
    ));
    agg.ingest_logs(&make_log_req(
        SERVICE_CODEX_EXEC,
        "codex.conversation_starts",
        vec![
            kv_str("conversation.id", "conv-late"),
            kv_str("provider_name", PROVIDER_OPENAI),
            kv_str("model", "gpt-5.5"),
            kv_str("reasoning_effort", "high"),
        ],
    ));

    let snap = agg.snapshot();
    let agent = snap.agents.get(AGENT_CODEX).unwrap();
    assert!(
        !agent
            .buckets
            .contains_key(&format!("{PROVIDER_OPENAI}/gpt-5.5/{UNKNOWN}"))
    );
    let bucket = agent
        .buckets
        .get(&format!("{PROVIDER_OPENAI}/gpt-5.5/high"))
        .unwrap();
    assert_eq!(bucket.stats.input_tokens, 100);
}

#[test]
fn codex_late_conversation_start_moves_sse_tokens_to_effort_bucket() {
    let mut agg = Aggregator::new();
    agg.ingest_logs(&make_log_req(
        SERVICE_CODEX_EXEC,
        "",
        vec![
            kv_str("event.name", "codex.sse_event"),
            kv_str("event.kind", "response.completed"),
            kv_str("model", "gpt-5.5"),
            kv_str("input_token_count", "100"),
        ],
    ));
    agg.ingest_traces(&make_trace_req(
        SERVICE_CODEX_EXEC,
        vec![conversation_starts_span(vec![
            kv_str("event.name", "codex.conversation_starts"),
            kv_str("provider_name", PROVIDER_OPENAI),
            kv_str("model", "gpt-5.5"),
            kv_str("reasoning_effort", "high"),
        ])],
    ));

    let snap = agg.snapshot();
    let agent = snap.agents.get(AGENT_CODEX).unwrap();
    assert!(
        !agent
            .buckets
            .contains_key(&format!("{PROVIDER_OPENAI}/gpt-5.5/{UNKNOWN}"))
    );
    let bucket = agent
        .buckets
        .get(&format!("{PROVIDER_OPENAI}/gpt-5.5/high"))
        .unwrap();
    assert_eq!(bucket.stats.input_tokens, 100);
}

#[test]
fn codex_sse_token_log_prevents_later_metric_double_count() {
    let mut agg = Aggregator::new();
    agg.ingest_logs(&make_log_req(
        SERVICE_CODEX_EXEC,
        "",
        vec![
            kv_str("event.name", "codex.sse_event"),
            kv_str("event.kind", "response.completed"),
            kv_str("model", "gpt-5.5"),
            kv_str("input_token_count", "100"),
        ],
    ));
    agg.ingest_metrics(&make_metric_req(
        SERVICE_CODEX_EXEC,
        vec![codex_token_metric("gpt-5.5", "input", 999.0)],
    ));

    let snap = agg.snapshot();
    let agent = snap.agents.get(AGENT_CODEX).unwrap();
    let bucket = agent
        .buckets
        .get(&format!("{PROVIDER_OPENAI}/gpt-5.5/{UNKNOWN}"))
        .unwrap();
    assert_eq!(bucket.stats.input_tokens, 100);
}

#[test]
fn codex_token_source_is_tracked_per_model() {
    let mut agg = Aggregator::new();
    agg.ingest_logs(&make_log_req(
        SERVICE_CODEX_EXEC,
        "",
        vec![
            kv_str("event.name", "codex.sse_event"),
            kv_str("event.kind", "response.completed"),
            kv_str("model", "gpt-5.5"),
            kv_str("input_token_count", "100"),
        ],
    ));
    agg.ingest_metrics(&make_metric_req(
        SERVICE_CODEX_EXEC,
        vec![
            codex_token_metric("gpt-5.5", "input", 999.0),
            codex_token_metric("gpt-5.4-mini", "input", 40.0),
        ],
    ));

    let snap = agg.snapshot();
    let agent = snap.agents.get(AGENT_CODEX).unwrap();
    let gpt55 = agent
        .buckets
        .get(&format!("{PROVIDER_OPENAI}/gpt-5.5/{UNKNOWN}"))
        .unwrap();
    let gpt54 = agent
        .buckets
        .get(&format!("{PROVIDER_OPENAI}/gpt-5.4-mini/{UNKNOWN}"))
        .unwrap();
    assert_eq!(gpt55.stats.input_tokens, 100);
    assert_eq!(gpt54.stats.input_tokens, 40);
}

#[test]
fn codex_request_count_and_duration_from_metrics() {
    let mut agg = Aggregator::new();
    let req = make_metric_req(
        SERVICE_CODEX_EXEC,
        vec![
            codex_turn_count("gpt-5.4-mini", 1),
            codex_turn_count("gpt-5.4-mini", 1),
            codex_duration_metric("gpt-5.4-mini", 5000.0),
        ],
    );
    agg.ingest_metrics(&req);
    let snap = agg.snapshot();
    let agent = snap.agents.get(AGENT_CODEX).unwrap();
    let bucket_key = format!("{PROVIDER_OPENAI}/gpt-5.4-mini/{UNKNOWN}");
    let bucket = agent.buckets.get(&bucket_key).unwrap();
    assert_eq!(bucket.stats.request_count, 2);
    assert_eq!(bucket.stats.duration_ms, 5000);
}

#[test]
fn codex_handle_responses_span_updates_effort_for_later_metrics() {
    let mut agg = Aggregator::new();
    agg.ingest_logs(&make_log_req(
        SERVICE_CODEX_EXEC,
        "codex.conversation_starts",
        vec![
            kv_str("provider_name", PROVIDER_OPENAI),
            kv_str("model", "gpt-5.5"),
            kv_str("reasoning_effort", "high"),
        ],
    ));
    agg.ingest_traces(&make_trace_req(
        SERVICE_CODEX_EXEC,
        vec![handle_responses_span("xhigh")],
    ));
    agg.ingest_metrics(&make_metric_req(
        SERVICE_CODEX_EXEC,
        vec![codex_token_metric("gpt-5.5", "input", 42.0)],
    ));

    let snap = agg.snapshot();
    let agent = snap.agents.get(AGENT_CODEX).unwrap();
    let bucket = agent
        .buckets
        .get(&format!("{PROVIDER_OPENAI}/gpt-5.5/xhigh"))
        .expect("xhigh bucket should be populated via span fallback");
    assert_eq!(bucket.stats.input_tokens, 42);
}

#[test]
fn codex_handle_responses_span_without_conversation_starts_seeds_session() {
    let mut agg = Aggregator::new();
    agg.ingest_traces(&make_trace_req(
        SERVICE_CODEX_EXEC,
        vec![handle_responses_span("xhigh")],
    ));
    agg.ingest_metrics(&make_metric_req(
        SERVICE_CODEX_EXEC,
        vec![codex_token_metric("gpt-5.5", "input", 7.0)],
    ));

    let snap = agg.snapshot();
    let agent = snap.agents.get(AGENT_CODEX).unwrap();
    let bucket = agent
        .buckets
        .get(&format!("{PROVIDER_OPENAI}/gpt-5.5/xhigh"))
        .expect("xhigh bucket should be populated via span fallback");
    assert_eq!(bucket.stats.input_tokens, 7);
}

#[test]
fn cumulative_temporality_is_dropped() {
    let mut agg = Aggregator::new();
    let mut metric = claude_token_metric(&opus("[1m]"), "max", "input", 999);
    if let Some(MetricData::Sum(ref mut sum)) = metric.data {
        sum.aggregation_temporality = 2;
    }
    let req = make_metric_req(&claude_code_name(), vec![metric]);
    agg.ingest_metrics(&req);
    let snap = agg.snapshot();
    assert!(snap.agents.is_empty());
}
#[test]
fn codex_late_session_only_moves_matching_conversation_tokens() {
    let mut agg = Aggregator::new();
    agg.ingest_logs(&make_log_req(
        SERVICE_CODEX_EXEC,
        "",
        vec![
            kv_str("event.name", "codex.sse_event"),
            kv_str("event.kind", "response.completed"),
            kv_str("conversation.id", "conv-a"),
            kv_str("model", "gpt-5.5"),
            kv_str("input_token_count", "100"),
        ],
    ));
    agg.ingest_logs(&make_log_req(
        SERVICE_CODEX_EXEC,
        "",
        vec![
            kv_str("event.name", "codex.sse_event"),
            kv_str("event.kind", "response.completed"),
            kv_str("conversation.id", "conv-b"),
            kv_str("model", "gpt-5.5"),
            kv_str("input_token_count", "50"),
        ],
    ));
    agg.ingest_logs(&make_log_req(
        SERVICE_CODEX_EXEC,
        "codex.conversation_starts",
        vec![
            kv_str("conversation.id", "conv-a"),
            kv_str("provider_name", PROVIDER_OPENAI),
            kv_str("model", "gpt-5.5"),
            kv_str("reasoning_effort", "high"),
        ],
    ));

    let snap = agg.snapshot();
    let agent = snap.agents.get(AGENT_CODEX).unwrap();
    let high = agent
        .buckets
        .get(&format!("{PROVIDER_OPENAI}/gpt-5.5/high"))
        .expect("conv-a has its bucket");
    assert_eq!(high.stats.input_tokens, 100);
    let unknown = agent
        .buckets
        .get(&format!("{PROVIDER_OPENAI}/gpt-5.5/{UNKNOWN}"))
        .expect("conv-b waits in the unknown bucket");
    assert_eq!(unknown.stats.input_tokens, 50);
    assert_eq!(agent.total.input_tokens, 150);
}
#[test]
fn codex_handle_responses_span_respects_conversation_id() {
    let mut agg = Aggregator::new();
    agg.ingest_logs(&make_log_req(
        SERVICE_CODEX_EXEC,
        "codex.conversation_starts",
        vec![
            kv_str("conversation.id", "conv-a"),
            kv_str("provider_name", PROVIDER_OPENAI),
            kv_str("model", "gpt-5.5"),
            kv_str("reasoning_effort", "high"),
        ],
    ));
    agg.ingest_logs(&make_log_req(
        SERVICE_CODEX_EXEC,
        "codex.conversation_starts",
        vec![
            kv_str("conversation.id", "conv-b"),
            kv_str("provider_name", PROVIDER_OPENAI),
            kv_str("model", "gpt-5.5"),
            kv_str("reasoning_effort", "medium"),
        ],
    ));
    agg.ingest_traces(&make_trace_req(
        SERVICE_CODEX_EXEC,
        vec![handle_responses_span_with_attrs(vec![
            kv_str("conversation.id", "conv-a"),
            kv_str("codex.request.reasoning_effort", "xhigh"),
        ])],
    ));
    agg.ingest_logs(&make_log_req(
        SERVICE_CODEX_EXEC,
        "",
        vec![
            kv_str("event.name", "codex.sse_event"),
            kv_str("event.kind", "response.completed"),
            kv_str("conversation.id", "conv-b"),
            kv_str("model", "gpt-5.5"),
            kv_str("input_token_count", "30"),
        ],
    ));

    let snap = agg.snapshot();
    let agent = snap.agents.get(AGENT_CODEX).unwrap();
    assert!(
        agent
            .buckets
            .get(&format!("{PROVIDER_OPENAI}/gpt-5.5/medium"))
            .is_some_and(|b| b.stats.input_tokens == 30),
        "conv-b keeps its effort"
    );
}
#[test]
fn claude_api_request_log_ignores_non_finite_double_values() {
    let mut agg = Aggregator::new();
    let log_req = make_log_req(
        &claude_code_name(),
        "claude_code.api_request",
        vec![
            kv_str("model", &opus("")),
            kv_str("effort", "max"),
            kv_double("input_tokens", f64::INFINITY),
            kv_double("output_tokens", f64::NAN),
            kv_double("duration_ms", f64::NEG_INFINITY),
            kv_double("cost_usd", f64::INFINITY),
        ],
    );
    agg.ingest_logs(&log_req);
    let snap = agg.snapshot();
    let agent = snap.agents.get(&claude_code_name()).unwrap();
    let bucket = agent.buckets.get(&opus_bucket("")).unwrap();
    assert_eq!(bucket.stats.request_count, 1);
    assert_eq!(bucket.stats.input_tokens, 0);
    assert_eq!(bucket.stats.output_tokens, 0);
    assert_eq!(bucket.stats.duration_ms, 0);
    assert_eq!(bucket.stats.cost_usd.units, 0, "the cost stays zero");
}
#[test]
fn metric_double_values_outside_u64_range_are_ignored() {
    let in_range = make_double_dp(vec![], 42.9);
    assert_eq!(number_value_as_u64(&in_range), 42);

    let too_large_number = make_double_dp(vec![], f64::MAX);
    assert_eq!(number_value_as_u64(&too_large_number), 0);

    let rounded_past_u64_max = make_double_dp(vec![], u64::MAX as f64);
    assert_eq!(number_value_as_u64(&rounded_past_u64_max), 0);

    let too_large_histogram = make_hist_dp(vec![], f64::MAX);
    assert_eq!(histogram_sum_as_u64(&too_large_histogram), 0);

    let rounded_histogram = make_hist_dp(vec![], u64::MAX as f64);
    assert_eq!(histogram_sum_as_u64(&rounded_histogram), 0);
}
#[test]
fn codex_session_for_unrelated_conversation_does_not_move_pending_tokens() {
    let mut agg = Aggregator::new();
    agg.ingest_logs(&make_log_req(
        SERVICE_CODEX_EXEC,
        "",
        vec![
            kv_str("event.name", "codex.sse_event"),
            kv_str("event.kind", "response.completed"),
            kv_str("conversation.id", "conv-a"),
            kv_str("model", "gpt-5.5"),
            kv_str("input_token_count", "100"),
        ],
    ));
    agg.ingest_logs(&make_log_req(
        SERVICE_CODEX_EXEC,
        "codex.conversation_starts",
        vec![
            kv_str("conversation.id", "conv-b"),
            kv_str("provider_name", PROVIDER_OPENAI),
            kv_str("model", "gpt-5.5"),
            kv_str("reasoning_effort", "medium"),
        ],
    ));

    let snap = agg.snapshot();
    let agent = snap.agents.get(AGENT_CODEX).unwrap();
    assert!(
        !agent
            .buckets
            .contains_key(&format!("{PROVIDER_OPENAI}/gpt-5.5/medium")),
        "a session moves nothing of another conversation"
    );
    let unknown = agent
        .buckets
        .get(&format!("{PROVIDER_OPENAI}/gpt-5.5/{UNKNOWN}"))
        .unwrap();
    assert_eq!(unknown.stats.input_tokens, 100);
}
