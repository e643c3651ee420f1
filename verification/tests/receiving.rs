//! Requests over HTTP and gRPC, and how they are answered.

use opentelemetry_proto::tonic::collector::logs::v1::ExportLogsServiceRequest;
use opentelemetry_proto::tonic::collector::metrics::v1::ExportMetricsServiceRequest;
use opentelemetry_proto::tonic::collector::trace::v1::ExportTraceServiceRequest;
use opentelemetry_proto::tonic::logs::v1::ResourceLogs;
use opentelemetry_proto::tonic::metrics::v1::ResourceMetrics;
use opentelemetry_proto::tonic::trace::v1::ResourceSpans;
use otel_logger::config::ProxySignal;
use otel_logger::grpc;
use otel_logger::grpc::persistence_status;
use otel_logger::http::{
    acknowledge, decode_logs_request, decode_metrics_request, decode_trace_request,
    detect_encoding, encode_response, receive_logs, receive_metrics, receive_traces, Encoding,
    HttpError,
};
use prost::Message;

const PROTOBUF_CT: &str = "application/x-protobuf";
const JSON_CT: &str = "application/json";

fn headers_with_ct(value: &str) -> Option<Vec<u8>> {
    Some(value.as_bytes().to_vec())
}

fn detected(content_type: Option<Vec<u8>>) -> Encoding {
    match detect_encoding(&content_type) {
        Ok(e) => e,
        Err(e) => panic!("refused: {}", e.message()),
    }
}

fn refused_type(content_type: Option<Vec<u8>>) -> String {
    match detect_encoding(&content_type) {
        Err(HttpError::UnsupportedContentType(t)) => t,
        Err(e) => panic!("unexpected error: {}", e.message()),
        Ok(_) => panic!("the content type was accepted"),
    }
}

#[test]
fn detect_encoding_defaults_to_protobuf_when_header_missing() {
    assert_eq!(detected(None), Encoding::Protobuf);
}

#[test]
fn detect_encoding_recognises_protobuf_and_json() {
    assert_eq!(detected(headers_with_ct(PROTOBUF_CT)), Encoding::Protobuf);
    assert_eq!(detected(headers_with_ct(JSON_CT)), Encoding::Json);
}

#[test]
fn detect_encoding_ignores_parameters_in_content_type() {
    assert_eq!(
        detected(headers_with_ct("application/x-protobuf; charset=utf-8")),
        Encoding::Protobuf
    );
}

#[test]
fn detect_encoding_rejects_unknown_content_type() {
    assert_eq!(refused_type(headers_with_ct("text/plain")), "text/plain");
}

#[test]
fn detect_encoding_rejects_non_utf8_content_type() {
    assert_eq!(refused_type(Some(vec![0xFF])), "<invalid header value>");
}

#[test]
fn detect_encoding_treats_media_type_case_insensitively() {
    assert_eq!(
        detected(headers_with_ct("Application/X-Protobuf; charset=utf-8")),
        Encoding::Protobuf
    );
    assert_eq!(detected(headers_with_ct("APPLICATION/JSON")), Encoding::Json);
}

#[test]
fn a_refused_content_type_is_reported_as_it_was_sent() {
    assert_eq!(refused_type(headers_with_ct("  Text/Plain ; q=1")), "Text/Plain");
    assert_eq!(refused_type(headers_with_ct("")), "");
    assert_eq!(refused_type(Some(vec![b'a', 10])), "<invalid header value>");
    assert_eq!(detected(headers_with_ct("\tapplication/json")), Encoding::Json);
}

#[test]
fn decode_request_returns_error_for_malformed_protobuf() {
    let result = decode_trace_request(Encoding::Protobuf, &[0xFF]);
    assert!(result.is_err());
    assert!(matches!(result, Err(HttpError::BadProtobuf(_))));
}

#[test]
fn persistence_error_maps_to_retryable_status() {
    let error = HttpError::Persistence("disk full".to_string());
    assert_eq!(error.status(), 503);
    assert_eq!(error.message(), "failed to persist telemetry: disk full");
}

#[test]
fn decode_errors_map_to_non_retryable_statuses() {
    assert_eq!(HttpError::UnsupportedContentType("text/plain".to_string()).status(), 415);
    let bad_protobuf =
        <ExportLogsServiceRequest as prost::Message>::decode(&[0xffu8, 0xff, 0xff][..])
            .expect_err("this is no protobuf");
    assert_eq!(HttpError::BadProtobuf(bad_protobuf.to_string()).status(), 400);
    let bad_json = serde_json::from_str::<serde_json::Value>("{").unwrap_err();
    assert_eq!(HttpError::BadJson(bad_json.to_string()).status(), 400);
}

#[test]
fn each_error_has_its_text() {
    assert_eq!(
        HttpError::UnsupportedContentType("text/plain".into()).message(),
        "unsupported content type: text/plain"
    );
    let bad = prost_error();
    match decode_logs_request(Encoding::Protobuf, &[0xff, 0xff, 0xff]) {
        Err(e) => assert_eq!(e.message(), format!("failed to decode protobuf body: {bad}")),
        Ok(_) => panic!("this is no protobuf"),
    }
    let bad = serde_json::from_slice::<ExportLogsServiceRequest>(b"{").unwrap_err();
    match decode_logs_request(Encoding::Json, b"{") {
        Err(e) => assert_eq!(e.message(), format!("failed to decode JSON body: {bad}")),
        Ok(_) => panic!("this is no JSON"),
    }
}

fn prost_error() -> String {
    ExportLogsServiceRequest::decode(&[0xffu8, 0xff, 0xff][..]).unwrap_err().to_string()
}

#[test]
fn each_signal_is_read_in_both_encodings() {
    let logs = ExportLogsServiceRequest {
        resource_logs: vec![ResourceLogs { schema_url: "u".into(), ..Default::default() }],
    };
    let traces = ExportTraceServiceRequest {
        resource_spans: vec![ResourceSpans { schema_url: "u".into(), ..Default::default() }],
    };
    let metrics = ExportMetricsServiceRequest {
        resource_metrics: vec![ResourceMetrics { schema_url: "u".into(), ..Default::default() }],
    };
    for (encoding, l, t, m) in [
        (Encoding::Protobuf, logs.encode_to_vec(), traces.encode_to_vec(), metrics.encode_to_vec()),
        (
            Encoding::Json,
            serde_json::to_vec(&logs).unwrap(),
            serde_json::to_vec(&traces).unwrap(),
            serde_json::to_vec(&metrics).unwrap(),
        ),
    ] {
        let ct = headers_with_ct(encoding.media_type());
        match receive_logs(&ct, &l) {
            Ok((e, r)) => {
                assert_eq!(e, encoding);
                assert_eq!(r, logs);
            }
            Err(e) => panic!("{}", e.message()),
        }
        match receive_traces(&ct, &t) {
            Ok((e, r)) => {
                assert_eq!(e, encoding);
                assert_eq!(r, traces);
            }
            Err(e) => panic!("{}", e.message()),
        }
        match receive_metrics(&ct, &m) {
            Ok((e, r)) => {
                assert_eq!(e, encoding);
                assert_eq!(r, metrics);
            }
            Err(e) => panic!("{}", e.message()),
        }
        assert!(decode_metrics_request(encoding, &m).is_ok());
    }
}

#[test]
fn a_body_that_cannot_be_read_is_refused() {
    let json = headers_with_ct(JSON_CT);
    assert!(matches!(receive_logs(&json, b"{"), Err(HttpError::BadJson(_))));
    assert!(matches!(receive_traces(&json, b"{"), Err(HttpError::BadJson(_))));
    assert!(matches!(receive_metrics(&json, b"{"), Err(HttpError::BadJson(_))));
    assert!(matches!(receive_logs(&None, &[0xff]), Err(HttpError::BadProtobuf(_))));
    assert!(matches!(receive_metrics(&None, &[0xff]), Err(HttpError::BadProtobuf(_))));
    let text = headers_with_ct("text/plain");
    assert!(matches!(receive_logs(&text, b""), Err(HttpError::UnsupportedContentType(_))));
}

#[test]
fn an_accepted_request_is_answered_in_its_encoding() {
    for signal in [ProxySignal::Logs, ProxySignal::Traces, ProxySignal::Metrics] {
        let protobuf = encode_response(Encoding::Protobuf, signal);
        assert_eq!(protobuf.content_type, PROTOBUF_CT);
        assert!(protobuf.body.is_empty());
        let json = encode_response(Encoding::Json, signal);
        assert_eq!(json.content_type, JSON_CT);
        assert_eq!(json.body, b"{\"partialSuccess\":null}".to_vec());
    }
}

#[test]
fn a_batch_that_was_not_kept_is_not_acknowledged() {
    match acknowledge(Encoding::Json, ProxySignal::Logs, Some("persist".into())) {
        Err(e) => {
            assert_eq!(e.status(), 503);
            assert_eq!(e.message(), "failed to persist telemetry: persist");
        }
        Ok(_) => panic!("the batch was acknowledged"),
    }
    assert!(acknowledge(Encoding::Json, ProxySignal::Logs, None).is_ok());
    assert!(grpc::acknowledge(None).is_ok());
    match grpc::acknowledge(Some("persist".into())) {
        Err(s) => assert_eq!(s.message, "failed to persist telemetry: persist"),
        Ok(()) => panic!("the batch was acknowledged"),
    }
}

#[test]
fn persistence_status_maps_to_internal_code() {
    let status = persistence_status("disk full");
    assert_eq!(tonic::Code::from_i32(status.code), tonic::Code::Internal);
    assert!(status.message.contains("disk full"), "the cause is named: {}", status.message);
}
