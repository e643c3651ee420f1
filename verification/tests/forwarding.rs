//! Sending telemetry on: which route takes what, how a route reaches its
//! collector, and when a request is tried again.

use opentelemetry_proto::tonic::collector::logs::v1::ExportLogsServiceRequest;
use opentelemetry_proto::tonic::collector::metrics::v1::ExportMetricsServiceRequest;
use opentelemetry_proto::tonic::collector::trace::v1::ExportTraceServiceRequest;
use opentelemetry_proto::tonic::logs::v1::ResourceLogs as ProtoResourceLogs;
use opentelemetry_proto::tonic::metrics::v1::ResourceMetrics as ProtoResourceMetrics;
use opentelemetry_proto::tonic::trace::v1::ResourceSpans as ProtoResourceSpans;
use otel_logger::agent::claude_code_name;
use otel_logger::cli::headers::Header;
use otel_logger::cli::routes::ProxyRoute;
use otel_logger::config::{ProxySignal, ProxyTransport};
use otel_logger::format::TelemetryRecord;
use otel_logger::forward::client::{
    check_reply, is_partial_rejection, ClientError, GrpcClient, HttpClient, RouteClient, UrlParts,
};
use otel_logger::forward::router::{ProxyRouter, QueueRoom, RouteLane, SendOutcome};
use otel_logger::forward::worker::{
    Attempts, SendAction, SendEvent, SendPhase, Worker, WorkerAction, WorkerEvent, DRAIN_GRACE_MS,
};
use otel_logger::forward::{ExportRequest, RouteMetrics, RouteMetricsSnapshot};
use otel_logger::otlp::{
    AnyValue, KeyValue, LogsRequest, MetricsRequest, Resource, ResourceLogs, ResourceMetrics,
    ResourceSpans, TraceRequest, Value,
};
use prost::Message;
use tokio::sync::mpsc;

fn resource_for(service: &str) -> Option<Resource> {
    Some(Resource {
        attributes: vec![KeyValue {
            key: "service.name".to_string(),
            value: Some(AnyValue { value: Some(Value::Text(service.to_string())) }),
        }],
    })
}

fn resource_logs_for(service: &str) -> ResourceLogs {
    ResourceLogs { resource: resource_for(service), scope_logs: vec![] }
}

fn logs(resource_logs: Vec<ResourceLogs>) -> TelemetryRecord {
    TelemetryRecord::Logs(LogsRequest { resource_logs })
}

fn make_route(name: &str, service_names: Vec<&str>) -> ProxyRoute {
    ProxyRoute {
        name: name.to_string(),
        service_names: service_names.into_iter().map(|s| s.to_string()).collect(),
        signals: ProxySignal::all(),
        transport: ProxyTransport::Grpc,
        endpoint: "https://example.invalid".to_string(),
        headers: Vec::new(),
    }
}

/// A router with the queues of its lanes.
struct Bench {
    router: ProxyRouter,
    senders: Vec<mpsc::Sender<ExportRequest>>,
    receivers: Vec<Option<mpsc::Receiver<ExportRequest>>>,
}

impl Bench {
    fn new(routes: Vec<ProxyRoute>, capacity: usize) -> Bench {
        let mut senders = Vec::new();
        let mut receivers = Vec::new();
        let mut lanes = Vec::new();
        for route in routes {
            let (tx, rx) = mpsc::channel(capacity);
            senders.push(tx);
            receivers.push(Some(rx));
            lanes.push(RouteLane { route, metrics: RouteMetrics::default() });
        }
        Bench { router: ProxyRouter::new(lanes), senders, receivers }
    }

    fn notify(&mut self, record: &TelemetryRecord) -> Vec<Option<u64>> {
        let mut reports = Vec::new();
        for d in self.router.notify(record) {
            let outcome = match self.senders[d.lane].try_send(d.request) {
                Ok(()) => SendOutcome::Queued,
                Err(mpsc::error::TrySendError::Full(_)) => SendOutcome::Full,
                Err(mpsc::error::TrySendError::Closed(_)) => SendOutcome::Closed,
            };
            reports.push(self.router.settle(d.lane, outcome));
        }
        reports
    }

    fn snapshot(&self) -> Vec<(String, RouteMetricsSnapshot)> {
        let rooms = self
            .senders
            .iter()
            .map(|s| QueueRoom { capacity: s.max_capacity(), free: s.capacity() })
            .collect();
        self.router.snapshot(&rooms)
    }
}

#[test]
fn splits_resources_by_service_name() {
    let claude = claude_code_name();
    let mut bench = Bench::new(
        vec![
            make_route("anthropic", vec![&claude]),
            make_route("openai", vec!["codex_cli_rs", "codex-app-server"]),
        ],
        4,
    );
    bench.notify(&logs(vec![
        resource_logs_for(&claude),
        resource_logs_for("codex_cli_rs"),
        resource_logs_for("unknown-service"),
    ]));

    let snapshot = bench.snapshot();
    assert_eq!(snapshot[0].0, "anthropic");
    assert_eq!(snapshot[0].1.queue_depth, 1);
    assert_eq!(snapshot[1].0, "openai");
    assert_eq!(snapshot[1].1.queue_depth, 1);
    assert_eq!(bench.router.lanes[0].metrics.dropped_total, 0);
    assert_eq!(bench.router.lanes[1].metrics.dropped_total, 0);
}

#[test]
fn skips_resource_without_service_name() {
    let mut bench = Bench::new(vec![make_route("openai", vec!["codex_cli_rs"])], 4);
    let mut resource_logs = resource_logs_for("codex_cli_rs");
    resource_logs.resource = None;
    bench.notify(&logs(vec![resource_logs]));

    assert_eq!(bench.snapshot()[0].1.queue_depth, 0);
    assert_eq!(bench.router.lanes[0].metrics.dropped_total, 0);
}

#[test]
fn respects_signal_types() {
    let claude = claude_code_name();
    let mut route = make_route("anthropic", vec![&claude]);
    route.signals = vec![ProxySignal::Logs];
    let mut bench = Bench::new(vec![route], 4);
    bench.notify(&TelemetryRecord::Metrics(MetricsRequest {
        resource_metrics: vec![ResourceMetrics {
            resource: resource_for(&claude),
            scope_metrics: vec![],
        }],
    }));

    assert_eq!(bench.snapshot()[0].1.queue_depth, 0);
}

#[test]
fn routes_traces_and_metrics_by_service_name() {
    let mut bench = Bench::new(vec![make_route("openai", vec!["codex_cli_rs"])], 4);
    let spans = |service: &str| ResourceSpans {
        resource: resource_for(service),
        scope_spans: vec![],
    };
    bench.notify(&TelemetryRecord::Traces(TraceRequest {
        resource_spans: vec![spans("codex_cli_rs"), spans("unknown-service")],
    }));
    match bench.receivers[0].as_mut().unwrap().try_recv().expect("spans are routed") {
        ExportRequest::Traces(resources) => assert_eq!(resources, vec![0]),
        _ => panic!("another signal was routed"),
    }

    let metrics = |service: &str| ResourceMetrics {
        resource: resource_for(service),
        scope_metrics: vec![],
    };
    bench.notify(&TelemetryRecord::Metrics(MetricsRequest {
        resource_metrics: vec![metrics("codex_cli_rs"), metrics("unknown-service")],
    }));
    match bench.receivers[0].as_mut().unwrap().try_recv().expect("metrics are routed") {
        ExportRequest::Metrics(resources) => assert_eq!(resources, vec![0]),
        _ => panic!("another signal was routed"),
    }
}

#[test]
fn drops_when_channel_is_full() {
    let claude = claude_code_name();
    let mut bench = Bench::new(vec![make_route("anthropic", vec![&claude])], 1);
    let make_req = || logs(vec![resource_logs_for(&claude)]);

    assert_eq!(bench.notify(&make_req()), vec![None]);
    assert_eq!(bench.notify(&make_req()), vec![Some(1)]);
    assert_eq!(bench.notify(&make_req()), vec![Some(2)]);

    assert_eq!(bench.snapshot()[0].1.queue_depth, 1);
    assert_eq!(bench.router.lanes[0].metrics.dropped_total, 2);
    assert_eq!(bench.notify(&make_req()), vec![None], "three is no power of two");
    assert_eq!(bench.notify(&make_req()), vec![Some(4)]);
}

#[test]
fn queue_depth_uses_channel_state_after_receive() {
    let claude = claude_code_name();
    let mut bench = Bench::new(vec![make_route("anthropic", vec![&claude])], 4);
    bench.notify(&logs(vec![resource_logs_for(&claude)]));
    assert_eq!(bench.snapshot()[0].1.queue_depth, 1);

    bench.receivers[0].as_mut().unwrap().try_recv().expect("a request waits");
    assert_eq!(bench.snapshot()[0].1.queue_depth, 0);
}

#[test]
fn drops_when_channel_is_closed() {
    let claude = claude_code_name();
    let mut bench = Bench::new(vec![make_route("anthropic", vec![&claude])], 4);
    bench.receivers[0] = None;
    bench.notify(&logs(vec![resource_logs_for(&claude)]));

    let snapshot = bench.snapshot();
    assert_eq!(snapshot[0].1.queue_depth, 0);
    assert_eq!(snapshot[0].1.dropped, 1);
}

#[test]
fn a_batch_keeps_its_order_within_a_lane() {
    let bench = Bench::new(vec![make_route("a", vec!["x", "y"]), make_route("b", vec!["z"])], 4);
    let out = bench.router.notify(&logs(vec![
        resource_logs_for("y"),
        resource_logs_for("z"),
        resource_logs_for("x"),
        resource_logs_for("w"),
    ]));
    assert_eq!(out.len(), 2);
    assert_eq!(out[0].lane, 0);
    assert!(matches!(&out[0].request, ExportRequest::Logs(r) if *r == vec![0, 2]));
    assert_eq!(out[1].lane, 1);
    assert!(matches!(&out[1].request, ExportRequest::Logs(r) if *r == vec![1]));
}

#[test]
fn requests_know_their_signal_and_whether_they_are_empty() {
    let r = ExportRequest::of(ProxySignal::Traces, vec![3]);
    assert_eq!(r.signal(), ProxySignal::Traces);
    assert!(!r.is_empty());
    assert!(ExportRequest::of(ProxySignal::Logs, vec![]).is_empty());
    assert!(ExportRequest::of(ProxySignal::Metrics, vec![]).is_empty());
}

#[test]
fn counts_appear_in_the_snapshot() {
    let mut m = RouteMetrics::default();
    m.count_sent();
    m.count_failed();
    m.count_failed();
    m.count_dropped(3);
    assert_eq!(
        m.snapshot(7),
        RouteMetricsSnapshot { sent: 1, failed: 2, dropped: 3, queue_depth: 7 }
    );
}

// Clients.

fn http_route(endpoint: &str) -> ProxyRoute {
    let mut route = make_route("openai", vec!["codex_cli_rs"]);
    route.transport = ProxyTransport::HttpProtobuf;
    route.endpoint = endpoint.to_string();
    route
}

fn refusal(r: Result<RouteClient, ClientError>) -> String {
    match r {
        Ok(_) => panic!("the route was accepted"),
        Err(e) => e.message(),
    }
}

#[test]
fn http_client_rejects_invalid_endpoint_at_startup() {
    for endpoint in [
        "",
        "collector.example.com",
        "ftp://collector.example.com",
        "https://collector.example.com?tenant=example",
        "https://collector.example.com/#fragment",
    ] {
        let error = refusal(RouteClient::build(&http_route(endpoint), 3_000));
        assert!(error.contains("openai"), "the route is named: {error}");
    }
}

#[test]
fn http_client_appends_signal_paths_after_base_path() {
    let route = http_route("https://collector.example.com/otlp/");
    let client = match RouteClient::build(&route, 3_000) {
        Ok(RouteClient::Http(client)) => client,
        _ => panic!("an HTTP route is reached over HTTP"),
    };
    assert_eq!(client.url(ProxySignal::Logs), "https://collector.example.com/otlp/v1/logs");
    assert_eq!(client.url(ProxySignal::Traces), "https://collector.example.com/otlp/v1/traces");
    assert_eq!(
        client.url(ProxySignal::Metrics),
        "https://collector.example.com/otlp/v1/metrics"
    );
}

#[test]
fn requests_are_sent_as_protobuf_to_the_url_of_their_signal() {
    let client = match RouteClient::build(&http_route("http://c"), 1) {
        Ok(RouteClient::Http(c)) => c,
        _ => panic!("the route was refused"),
    };
    let logs = ExportLogsServiceRequest {
        resource_logs: vec![ProtoResourceLogs { schema_url: "u".into(), ..Default::default() }],
    };
    let post = client.post_logs(&logs);
    assert_eq!(post.url, "http://c/v1/logs");
    assert_eq!(ExportLogsServiceRequest::decode(post.body.as_slice()).unwrap(), logs);
    assert!(!post.body.is_empty());

    let traces = ExportTraceServiceRequest {
        resource_spans: vec![ProtoResourceSpans { schema_url: "u".into(), ..Default::default() }],
    };
    let post = client.post_traces(&traces);
    assert_eq!(post.url, "http://c/v1/traces");
    assert_eq!(ExportTraceServiceRequest::decode(post.body.as_slice()).unwrap(), traces);

    let metrics = ExportMetricsServiceRequest {
        resource_metrics: vec![ProtoResourceMetrics {
            schema_url: "u".into(),
            ..Default::default()
        }],
    };
    let post = client.post_metrics(&metrics);
    assert_eq!(post.url, "http://c/v1/metrics");
    assert_eq!(ExportMetricsServiceRequest::decode(post.body.as_slice()).unwrap(), metrics);
}

#[test]
fn urls_are_brought_into_their_normal_form() {
    let route = http_route("HTTPS://Collector.Example.com");
    match RouteClient::build(&route, 1) {
        Ok(RouteClient::Http(c)) => {
            assert_eq!(c.url(ProxySignal::Logs), "https://collector.example.com/v1/logs")
        }
        _ => panic!("the route was refused"),
    }
}

#[test]
fn grpc_routes_are_encrypted_where_the_scheme_says_so() {
    let mut route = make_route("x", vec!["a"]);
    for (endpoint, tls) in [
        ("https://collector.example.com:4317", true),
        ("http://collector.example.com:4317", false),
        ("collector.example.com:4317", false),
    ] {
        route.endpoint = endpoint.to_string();
        match RouteClient::build(&route, 1500) {
            Ok(RouteClient::Grpc(c)) => {
                assert_eq!(c.tls, tls, "{endpoint}");
                assert_eq!(c.timeout_ms, 1500);
            }
            _ => panic!("refused: {endpoint}"),
        }
    }
    for endpoint in ["", "not a uri"] {
        route.endpoint = endpoint.to_string();
        let error = refusal(RouteClient::build(&route, 1500));
        assert!(error.contains('x'), "the route is named: {error}");
    }
}

#[test]
fn metadata_keys_are_sent_in_small_letters() {
    let mut route = make_route("x", vec!["a"]);
    route.headers = vec![Header { key: "X-Tenant".into(), value: "corp".into() }];
    match RouteClient::build(&route, 1) {
        Ok(RouteClient::Grpc(c)) => {
            assert_eq!(c.metadata[0].key, "x-tenant");
            assert_eq!(c.metadata[0].value, "corp");
        }
        _ => panic!("the route was refused"),
    }
}

#[test]
fn what_cannot_be_sent_is_refused() {
    let bad_key = || vec![Header { key: "bad key".into(), value: "v".into() }];
    let bad_value = || vec![Header { key: "X".into(), value: "a\nb".into() }];
    let mut route = http_route("https://collector.example.com");
    route.headers = bad_key();
    assert_eq!(
        refusal(RouteClient::build(&route, 1)),
        "invalid HTTP header key `bad key` on route `openai`"
    );
    route.headers = bad_value();
    assert_eq!(
        refusal(RouteClient::build(&route, 1)),
        "invalid HTTP header value for `X` on route `openai`"
    );
    route.transport = ProxyTransport::Grpc;
    route.headers = bad_key();
    assert_eq!(
        refusal(RouteClient::build(&route, 1)),
        "invalid metadata key `bad key` for route `openai`"
    );
    route.headers = vec![Header { key: "x-bin".into(), value: "v".into() }];
    assert_eq!(
        refusal(RouteClient::build(&route, 1)),
        "invalid metadata key `x-bin` for route `openai`"
    );
    route.headers = bad_value();
    assert_eq!(
        refusal(RouteClient::build(&route, 1)),
        "invalid metadata value for header `X` on route `openai`"
    );
    route.headers = vec![Header { key: "X-Tenant".into(), value: "corp".into() }];
    assert!(RouteClient::build(&route, 1).is_ok());
}

#[test]
fn endpoints_that_cannot_be_used_are_told_apart() {
    let text = |endpoint: &str| refusal(RouteClient::build(&http_route(endpoint), 1));
    assert_eq!(text("x y"), "parse HTTP endpoint `x y` for route `openai`");
    assert_eq!(
        text("ftp://a"),
        "HTTP endpoint `ftp://a` for route `openai` must be an absolute HTTP(S) URL"
    );
    assert_eq!(
        text("http://a?b"),
        "HTTP endpoint `http://a?b` for route `openai` must not contain a query or fragment"
    );
    let mut route = make_route("x", vec!["a"]);
    route.endpoint = "not a uri".into();
    assert_eq!(refusal(RouteClient::build(&route, 1)), "build gRPC endpoint for route `x`");
}

#[test]
fn replies_other_than_success_are_errors() {
    assert!(check_reply(200, "200 OK", "https://a/v1/logs", "").is_ok());
    assert!(check_reply(299, "299", "https://a/v1/logs", "").is_ok());
    match check_reply(500, "500 Internal Server Error", "https://a/v1/logs", "oops") {
        Ok(()) => panic!("an error status was taken for success"),
        Err(e) => {
            assert!(e.contains("500"), "got: {e}");
            assert!(e.contains("oops"), "got: {e}");
        }
    }
    assert!(check_reply(199, "199", "u", "").is_err());
    assert!(check_reply(300, "300", "u", "").is_err());
}

#[test]
fn a_partial_rejection_has_rejects_or_a_message() {
    assert!(is_partial_rejection(1, ""));
    assert!(is_partial_rejection(0, "late"));
    assert!(!is_partial_rejection(0, ""));
}

// Workers.

/// Sends a request to a collector that never takes it; how often it was tried,
/// the pauses, and the end.
fn send_in_vain(retry_max: u32) -> (usize, Vec<u64>, SendAction) {
    let mut attempts = Attempts::new(retry_max);
    let mut tried = 0;
    let mut pauses = Vec::new();
    let mut action = attempts.on_event(SendEvent::Begin { cancelled: false });
    loop {
        action = match action {
            SendAction::Try => {
                tried += 1;
                attempts.on_event(SendEvent::Refused)
            }
            SendAction::Pause { ms } => {
                pauses.push(ms);
                attempts.on_event(SendEvent::Begin { cancelled: false })
            }
            end => return (tried, pauses, end),
        };
    }
}

#[test]
fn retry_max_counts_retries_after_initial_attempt() {
    let (tried, pauses, end) = send_in_vain(1);
    assert_eq!(end, SendAction::GivenUp);
    assert_eq!(tried, 2);
    assert_eq!(pauses, vec![200]);
    assert_eq!(send_in_vain(0).0, 1);
    assert_eq!(send_in_vain(8).0, 9);
}

#[test]
fn send_with_retry_cancels_in_flight_request() {
    let mut attempts = Attempts::new(3);
    assert_eq!(attempts.on_event(SendEvent::Begin { cancelled: false }), SendAction::Try);
    assert_eq!(
        attempts.on_event(SendEvent::Cancelled),
        SendAction::Abandoned { at: SendPhase::Trying }
    );
    assert_eq!(attempts.on_event(SendEvent::Arrived), SendAction::GoOn);

    let mut attempts = Attempts::new(3);
    attempts.on_event(SendEvent::Begin { cancelled: false });
    assert_eq!(attempts.on_event(SendEvent::Refused), SendAction::Pause { ms: 200 });
    assert_eq!(
        attempts.on_event(SendEvent::Cancelled),
        SendAction::Abandoned { at: SendPhase::Pausing }
    );

    let mut attempts = Attempts::new(3);
    assert_eq!(
        attempts.on_event(SendEvent::Begin { cancelled: true }),
        SendAction::Abandoned { at: SendPhase::Ready }
    );
}

#[test]
fn a_request_that_arrives_is_not_tried_again() {
    let mut attempts = Attempts::new(3);
    attempts.on_event(SendEvent::Begin { cancelled: false });
    assert_eq!(attempts.on_event(SendEvent::Refused), SendAction::Pause { ms: 200 });
    assert_eq!(attempts.on_event(SendEvent::Begin { cancelled: false }), SendAction::Try);
    assert_eq!(attempts.on_event(SendEvent::Arrived), SendAction::Sent);
}

#[test]
fn pauses_double_up_to_half_a_minute() {
    let (_, pauses, _) = send_in_vain(10);
    assert_eq!(
        pauses,
        vec![200, 400, 800, 1600, 3200, 6400, 12800, 25600, 30000, 30000]
    );
}

#[test]
fn shutdown_drains_queued_batches_before_stopping() {
    let mut metrics = RouteMetrics::default();
    let mut worker = Worker::new(0);
    let mut queue = vec![(); 4];
    let mut received = 0;
    let mut action = worker.on_event(&mut metrics, WorkerEvent::ShutdownRequested);
    loop {
        let event = match action {
            WorkerAction::Send { .. } => {
                received += 1;
                WorkerEvent::Sent
            }
            WorkerAction::Stop { .. } => break,
            _ => match queue.pop() {
                Some(()) => WorkerEvent::Received { empty: false, deadline_passed: false },
                None => WorkerEvent::QueueEmpty,
            },
        };
        action = worker.on_event(&mut metrics, event);
    }
    assert_eq!(received, 4);
    assert_eq!(metrics.sent_total, 4);
    assert_eq!(metrics.dropped_total, 0);
    assert_eq!(action, WorkerAction::Stop { drained: 4, abandoned: 0 });
}

#[test]
fn a_worker_serves_drains_and_stops() {
    let mut metrics = RouteMetrics::default();
    let mut worker = Worker::new(8);
    let got = WorkerEvent::Received { empty: false, deadline_passed: false };
    assert_eq!(worker.on_event(&mut metrics, got), WorkerAction::Send { retry_max: 8 });
    assert_eq!(worker.on_event(&mut metrics, WorkerEvent::Sent), WorkerAction::Receive);
    assert_eq!(
        worker.on_event(
            &mut metrics,
            WorkerEvent::Received { empty: true, deadline_passed: false }
        ),
        WorkerAction::Receive
    );
    assert_eq!(
        worker.on_event(&mut metrics, WorkerEvent::ShutdownRequested),
        WorkerAction::StartDrain
    );
    assert_eq!(worker.on_event(&mut metrics, got), WorkerAction::Send { retry_max: 0 });
    assert_eq!(worker.on_event(&mut metrics, WorkerEvent::Failed), WorkerAction::TakeNext);
    assert_eq!(worker.on_event(&mut metrics, got), WorkerAction::Send { retry_max: 0 });
    assert_eq!(worker.on_event(&mut metrics, WorkerEvent::Sent), WorkerAction::TakeNext);
    let late = WorkerEvent::Received { empty: false, deadline_passed: true };
    assert_eq!(worker.on_event(&mut metrics, late), WorkerAction::TakeNext);
    assert_eq!(
        worker.on_event(&mut metrics, WorkerEvent::QueueEmpty),
        WorkerAction::Stop { drained: 1, abandoned: 1 }
    );
    assert_eq!(
        metrics,
        RouteMetrics { sent_total: 2, failed_total: 1, dropped_total: 1 }
    );
    assert_eq!(DRAIN_GRACE_MS, 5000);
}

fn url(scheme: &str, has_host: bool, has_query: bool, has_fragment: bool, text: &str) -> UrlParts {
    UrlParts { scheme: scheme.to_string(), has_host, has_query, has_fragment, text: text.to_string() }
}

#[test]
fn an_http_client_is_made_of_parsed_urls() {
    let route = http_route("https://c.example/base");
    let below = |s: &str| Some(url("https", true, false, false, s));
    let made = |endpoint, logs| {
        HttpClient::from_parts(&route, 7, endpoint, logs, below("https://t/"), below("https://m/"))
    };
    let client = match made(below("https://c.example/base"), below("https://l/")) {
        Ok(c) => c,
        Err(e) => panic!("refused: {}", e.message()),
    };
    assert_eq!(client.url(ProxySignal::Logs), "https://l/");
    assert_eq!(client.url(ProxySignal::Traces), "https://t/");
    assert_eq!(client.url(ProxySignal::Metrics), "https://m/");
    assert_eq!(client.timeout_ms, 7);
    assert!(matches!(made(None, below("x")), Err(ClientError::HttpEndpoint { .. })));
    for bad in [url("ftp", true, false, false, ""), url("http", false, false, false, "")] {
        assert!(matches!(made(Some(bad), below("x")), Err(ClientError::NotAbsolute { .. })));
    }
    for bad in [url("http", true, true, false, ""), url("http", true, false, true, "")] {
        assert!(matches!(made(Some(bad), below("x")), Err(ClientError::QueryOrFragment { .. })));
    }
    match made(below("https://c.example/base"), None) {
        Err(ClientError::SignalUrl { path, .. }) => assert_eq!(path, "/v1/logs"),
        _ => panic!("a URL was made of nothing"),
    }
}

#[test]
fn a_grpc_client_is_made_of_what_is_known_of_its_endpoint() {
    let route = make_route("r", vec!["svc"]);
    let scheme = |s: &str| Some(Some(s.to_string()));
    let tls = |accepted, scheme, encryptable| {
        GrpcClient::from_parts(&route, 7, accepted, scheme, encryptable).ok().map(|c| c.tls)
    };
    assert_eq!(tls(true, scheme("https"), true), Some(true));
    assert_eq!(tls(true, scheme("https"), false), None);
    assert_eq!(tls(true, scheme("http"), false), Some(false));
    assert_eq!(tls(true, Some(None), false), Some(false));
    assert_eq!(tls(true, None, true), None);
    assert_eq!(tls(false, scheme("http"), true), None);
}

#[test]
fn a_host_that_names_no_server_cannot_be_encrypted() {
    let built = |endpoint: &str| {
        let mut route = make_route("r", vec!["svc"]);
        route.endpoint = endpoint.to_string();
        RouteClient::build(&route, 1000)
    };
    for endpoint in ["https://c.example:4317", "https://127.0.0.1:4317", "https://[::1]:4317"] {
        assert!(built(endpoint).is_ok(), "{endpoint}");
    }
    assert_eq!(refusal(built("https://a..b:4317")), "build gRPC endpoint for route `r`");
    assert!(built("http://a..b:4317").is_ok());
}
