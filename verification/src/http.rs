//! OTLP over HTTP: how a request is read and how it is answered.

use crate::config::ProxySignal;
use crate::text::{find_char, push_text, same_text, text_of, to_ascii_lower, trim};
use opentelemetry_proto::tonic::collector::logs::v1::{
    ExportLogsServiceRequest, ExportLogsServiceResponse,
};
use opentelemetry_proto::tonic::collector::metrics::v1::{
    ExportMetricsServiceRequest, ExportMetricsServiceResponse,
};
use opentelemetry_proto::tonic::collector::trace::v1::{
    ExportTraceServiceRequest, ExportTraceServiceResponse,
};
use prost::Message;
use vstd::prelude::*;

verus! {

// ---------------------------------------------------------------------------
// Outside types and functions
// ---------------------------------------------------------------------------

/// A request with log records, as it was decoded.
#[verifier::external_type_specification]
#[verifier::external_body]
pub struct ExLogsRequest(opentelemetry_proto::tonic::collector::logs::v1::ExportLogsServiceRequest);

/// A request with spans, as it was decoded.
#[verifier::external_type_specification]
#[verifier::external_body]
pub struct ExTraceRequest(opentelemetry_proto::tonic::collector::trace::v1::ExportTraceServiceRequest);

/// A request with metrics, as it was decoded.
#[verifier::external_type_specification]
#[verifier::external_body]
pub struct ExMetricsRequest(opentelemetry_proto::tonic::collector::metrics::v1::ExportMetricsServiceRequest);

/// What a decoder made of a body: a value, or the text of its error.
pub open spec fn decoded<M>(r: Result<M, String>) -> Result<M, Seq<char>> {
    match r {
        Ok(m) => Ok(m),
        Err(e) => Err(e@),
    }
}

/// What `prost::Message::decode` makes of a body as a request with log records.
pub uninterp spec fn protobuf_logs(body: Seq<u8>) -> Result<ExportLogsServiceRequest, Seq<char>>;

/// A protobuf body as a request with log records, from
/// `prost::Message::decode`. The result is named, not described.
#[verifier::external_body]
fn decode_protobuf_logs(body: &[u8]) -> (r: Result<ExportLogsServiceRequest, String>)
    ensures
        decoded(r) == protobuf_logs(body@),
{
    ExportLogsServiceRequest::decode(body).map_err(|e| e.to_string())
}

/// What `prost::Message::decode` makes of a body as a request with spans.
pub uninterp spec fn protobuf_traces(body: Seq<u8>) -> Result<ExportTraceServiceRequest, Seq<char>>;

/// A protobuf body as a request with spans, from `prost::Message::decode`. The
/// result is named, not described.
#[verifier::external_body]
fn decode_protobuf_traces(body: &[u8]) -> (r: Result<ExportTraceServiceRequest, String>)
    ensures
        decoded(r) == protobuf_traces(body@),
{
    ExportTraceServiceRequest::decode(body).map_err(|e| e.to_string())
}

/// What `prost::Message::decode` makes of a body as a request with metrics.
pub uninterp spec fn protobuf_metrics(body: Seq<u8>) -> Result<
    ExportMetricsServiceRequest,
    Seq<char>,
>;

/// A protobuf body as a request with metrics, from `prost::Message::decode`. The
/// result is named, not described.
#[verifier::external_body]
fn decode_protobuf_metrics(body: &[u8]) -> (r: Result<ExportMetricsServiceRequest, String>)
    ensures
        decoded(r) == protobuf_metrics(body@),
{
    ExportMetricsServiceRequest::decode(body).map_err(|e| e.to_string())
}

/// What `serde_json::from_slice` makes of a body as a request with log records.
pub uninterp spec fn json_logs(body: Seq<u8>) -> Result<ExportLogsServiceRequest, Seq<char>>;

/// A JSON body as a request with log records, from `serde_json::from_slice`. The
/// result is named, not described.
#[verifier::external_body]
fn decode_json_logs(body: &[u8]) -> (r: Result<ExportLogsServiceRequest, String>)
    ensures
        decoded(r) == json_logs(body@),
{
    serde_json::from_slice(body).map_err(|e| e.to_string())
}

/// What `serde_json::from_slice` makes of a body as a request with spans.
pub uninterp spec fn json_traces(body: Seq<u8>) -> Result<ExportTraceServiceRequest, Seq<char>>;

/// A JSON body as a request with spans, from `serde_json::from_slice`. The
/// result is named, not described.
#[verifier::external_body]
fn decode_json_traces(body: &[u8]) -> (r: Result<ExportTraceServiceRequest, String>)
    ensures
        decoded(r) == json_traces(body@),
{
    serde_json::from_slice(body).map_err(|e| e.to_string())
}

/// What `serde_json::from_slice` makes of a body as a request with metrics.
pub uninterp spec fn json_metrics(body: Seq<u8>) -> Result<ExportMetricsServiceRequest, Seq<char>>;

/// A JSON body as a request with metrics, from `serde_json::from_slice`. The
/// result is named, not described.
#[verifier::external_body]
fn decode_json_metrics(body: &[u8]) -> (r: Result<ExportMetricsServiceRequest, String>)
    ensures
        decoded(r) == json_metrics(body@),
{
    serde_json::from_slice(body).map_err(|e| e.to_string())
}

/// The JSON text of a response without a partial success.
pub open spec fn empty_response_json() -> Seq<u8> {
    crate::config::ascii_bytes("{\"partialSuccess\":null}"@)
}

/// The protobuf encoding of a response for log records without a partial
/// success, from `prost::Message::encode_to_vec`: a message none of whose fields
/// is set has no bytes.
#[verifier::external_body]
fn encode_protobuf_logs() -> (r: Vec<u8>)
    ensures
        r@ == Seq::<u8>::empty(),
{
    ExportLogsServiceResponse { partial_success: None }.encode_to_vec()
}

/// The protobuf encoding of a response for spans without a partial success, from
/// `prost::Message::encode_to_vec`: a message none of whose fields is set has no
/// bytes.
#[verifier::external_body]
fn encode_protobuf_traces() -> (r: Vec<u8>)
    ensures
        r@ == Seq::<u8>::empty(),
{
    ExportTraceServiceResponse { partial_success: None }.encode_to_vec()
}

/// The protobuf encoding of a response for metrics without a partial success,
/// from `prost::Message::encode_to_vec`: a message none of whose fields is set
/// has no bytes.
#[verifier::external_body]
fn encode_protobuf_metrics() -> (r: Vec<u8>)
    ensures
        r@ == Seq::<u8>::empty(),
{
    ExportMetricsServiceResponse { partial_success: None }.encode_to_vec()
}

/// The JSON encoding of a response for log records without a partial success,
/// from `serde_json::to_vec`: its one field, under its camel-case name, is null.
/// Should `to_vec` fail, which it does for no such value, this panics.
#[verifier::external_body]
fn encode_json_logs() -> (r: Vec<u8>)
    ensures
        r@ == empty_response_json(),
{
    serde_json::to_vec(&ExportLogsServiceResponse { partial_success: None }).expect(
        "serialize response to JSON",
    )
}

/// The JSON encoding of a response for spans without a partial success, from
/// `serde_json::to_vec`: its one field, under its camel-case name, is null.
/// Should `to_vec` fail, which it does for no such value, this panics.
#[verifier::external_body]
fn encode_json_traces() -> (r: Vec<u8>)
    ensures
        r@ == empty_response_json(),
{
    serde_json::to_vec(&ExportTraceServiceResponse { partial_success: None }).expect(
        "serialize response to JSON",
    )
}

/// The JSON encoding of a response for metrics without a partial success, from
/// `serde_json::to_vec`: its one field, under its camel-case name, is null.
/// Should `to_vec` fail, which it does for no such value, this panics.
#[verifier::external_body]
fn encode_json_metrics() -> (r: Vec<u8>)
    ensures
        r@ == empty_response_json(),
{
    serde_json::to_vec(&ExportMetricsServiceResponse { partial_success: None }).expect(
        "serialize response to JSON",
    )
}

// ---------------------------------------------------------------------------
// Encodings
// ---------------------------------------------------------------------------

/// How a body is encoded.
#[derive(Clone, Copy, Debug, PartialEq, Eq, Structural)]
pub enum Encoding {
    Protobuf,
    Json,
}

/// The media type of protobuf bodies.
pub open spec fn protobuf_type() -> Seq<char> {
    "application/x-protobuf"@
}

/// The media type of JSON bodies.
pub open spec fn json_type() -> Seq<char> {
    "application/json"@
}

/// The media type of an encoding.
pub open spec fn media_type_of(e: Encoding) -> Seq<char> {
    match e {
        Encoding::Protobuf => protobuf_type(),
        Encoding::Json => json_type(),
    }
}

impl Encoding {
    /// The media type of the encoding.
    pub fn media_type(self) -> (r: &'static str)
        ensures
            r@ == media_type_of(self),
    {
        match self {
            Encoding::Protobuf => "application/x-protobuf",
            Encoding::Json => "application/json",
        }
    }
}

/// Why a request is not answered as its exporter would like.
pub enum HttpError {
    /// The media type of the body is none that is read.
    UnsupportedContentType(String),
    /// The body is not the protobuf it is said to be.
    BadProtobuf(String),
    /// The body is not the JSON it is said to be.
    BadJson(String),
    /// The batch could not be kept.
    Persistence(String),
}

/// Why a request is not answered as its exporter would like.
#[verifier::ext_equal]
pub enum HttpRefusal {
    UnsupportedContentType(Seq<char>),
    BadProtobuf(Seq<char>),
    BadJson(Seq<char>),
    Persistence(Seq<char>),
}

impl View for HttpError {
    type V = HttpRefusal;

    open spec fn view(&self) -> HttpRefusal {
        match self {
            HttpError::UnsupportedContentType(t) => HttpRefusal::UnsupportedContentType(t@),
            HttpError::BadProtobuf(t) => HttpRefusal::BadProtobuf(t@),
            HttpError::BadJson(t) => HttpRefusal::BadJson(t@),
            HttpError::Persistence(t) => HttpRefusal::Persistence(t@),
        }
    }
}

/// The status code of an answer. An exporter sends again what is answered with
/// 503, and drops what is answered with 400 or 415.
pub open spec fn status_of(e: HttpRefusal) -> u16 {
    match e {
        HttpRefusal::UnsupportedContentType(_) => 415,
        HttpRefusal::BadProtobuf(_) | HttpRefusal::BadJson(_) => 400,
        HttpRefusal::Persistence(_) => 503,
    }
}

/// The text of an answer.
pub open spec fn refusal_text(e: HttpRefusal) -> Seq<char> {
    match e {
        HttpRefusal::UnsupportedContentType(t) => "unsupported content type: "@ + t,
        HttpRefusal::BadProtobuf(t) => "failed to decode protobuf body: "@ + t,
        HttpRefusal::BadJson(t) => "failed to decode JSON body: "@ + t,
        HttpRefusal::Persistence(t) => "failed to persist telemetry: "@ + t,
    }
}

fn prefixed(prefix: &str, text: &String) -> (r: String)
    ensures
        r@ == prefix@ + text@,
{
    let mut out = String::new();
    push_text(&mut out, prefix);
    push_text(&mut out, text.as_str());
    assert(out@ =~= prefix@ + text@);
    out
}

impl HttpError {
    /// The status code of the answer.
    pub fn status(&self) -> (r: u16)
        ensures
            r == status_of(self@),
    {
        match self {
            HttpError::UnsupportedContentType(_) => 415,
            HttpError::BadProtobuf(_) => 400,
            HttpError::BadJson(_) => 400,
            HttpError::Persistence(_) => 503,
        }
    }

    /// The text of the answer.
    pub fn message(&self) -> (r: String)
        ensures
            r@ == refusal_text(self@),
    {
        match self {
            HttpError::UnsupportedContentType(t) => prefixed("unsupported content type: ", t),
            HttpError::BadProtobuf(t) => prefixed("failed to decode protobuf body: ", t),
            HttpError::BadJson(t) => prefixed("failed to decode JSON body: ", t),
            HttpError::Persistence(t) => prefixed("failed to persist telemetry: ", t),
        }
    }
}

/// Whether a byte may stand in a header that is read as text: visible ASCII, the
/// space and the tabulator.
pub open spec fn visible(b: u8) -> bool {
    32 <= b < 127 || b == 9
}

/// The text in a header.
pub open spec fn header_text(value: Seq<u8>) -> Option<Seq<char>> {
    if forall|i: int| 0 <= i < value.len() ==> visible(#[trigger] value[i]) {
        Some(Seq::new(value.len(), |i: int| value[i] as char))
    } else {
        None
    }
}

/// The media type in a content type: what comes before the parameters.
pub open spec fn primary_type(content_type: Seq<char>) -> Seq<char> {
    crate::text::trimmed(crate::text::before(content_type, ';'))
}

/// How a body with a content type is encoded. Media types are the same in
/// capitals and small letters. Without a content type a body is protobuf.
pub open spec fn encoding_for(content_type: Option<Seq<u8>>) -> Result<Encoding, HttpRefusal> {
    match content_type {
        None => Ok(Encoding::Protobuf),
        Some(value) => match header_text(value) {
            None => Err(HttpRefusal::UnsupportedContentType("<invalid header value>"@)),
            Some(text) => {
                let primary = primary_type(text);
                let lower = crate::text::ascii_lower(primary);
                if lower == protobuf_type() {
                    Ok(Encoding::Protobuf)
                } else if lower == json_type() {
                    Ok(Encoding::Json)
                } else {
                    Err(HttpRefusal::UnsupportedContentType(primary))
                }
            },
        },
    }
}

/// A result with the view of its error.
pub open spec fn refusal_in<T>(r: Result<T, HttpError>) -> Result<T, HttpRefusal> {
    match r {
        Ok(t) => Ok(t),
        Err(e) => Err(e@),
    }
}

fn read_header(value: &Vec<u8>) -> (r: Option<Vec<char>>)
    ensures
        match r {
            Some(t) => header_text(value@) == Some(t@),
            None => header_text(value@) is None,
        },
{
    let mut out: Vec<char> = Vec::new();
    for i in 0..value.len()
        invariant
            out@.len() == i,
            forall|j: int| 0 <= j < i ==> visible(#[trigger] value@[j]),
            forall|j: int| 0 <= j < i ==> #[trigger] out@[j] == value@[j] as char,
    {
        let b = value[i];
        if !((32 <= b && b < 127) || b == 9) {
            assert(!visible(value@[i as int]));
            return None;
        }
        out.push(b as char);
    }
    assert(out@ =~= Seq::new(value@.len(), |i: int| value@[i] as char));
    Some(out)
}

/// How a body with a content type is encoded.
pub fn detect_encoding(content_type: &Option<Vec<u8>>) -> (r: Result<Encoding, HttpError>)
    ensures
        refusal_in(r) == encoding_for(crate::path::bytes_in(*content_type)),
{
    let text = match content_type {
        None => {
            return Ok(Encoding::Protobuf);
        },
        Some(value) => match read_header(value) {
            None => {
                return Err(HttpError::UnsupportedContentType("<invalid header value>".to_owned()));
            },
            Some(text) => text,
        },
    };
    let end: usize = find_char(&text, ';');
    let head = crate::text::copy_range(&text, 0, end);
    assert(head@ =~= crate::text::before(text@, ';'));
    let primary = trim(&head);
    let lower = text_of(&to_ascii_lower(&primary));
    if same_text(lower.as_str(), "application/x-protobuf") {
        Ok(Encoding::Protobuf)
    } else if same_text(lower.as_str(), "application/json") {
        Ok(Encoding::Json)
    } else {
        Err(HttpError::UnsupportedContentType(text_of(&primary)))
    }
}

// ---------------------------------------------------------------------------
// Requests
// ---------------------------------------------------------------------------

/// What becomes of a body of an encoding, given what the two decoders make of
/// it.
pub open spec fn opened<M>(
    encoding: Encoding,
    protobuf: Result<M, Seq<char>>,
    json: Result<M, Seq<char>>,
) -> Result<M, HttpRefusal> {
    match encoding {
        Encoding::Protobuf => match protobuf {
            Ok(m) => Ok(m),
            Err(e) => Err(HttpRefusal::BadProtobuf(e)),
        },
        Encoding::Json => match json {
            Ok(m) => Ok(m),
            Err(e) => Err(HttpRefusal::BadJson(e)),
        },
    }
}

/// What a decoder made of a body, with its error as an answer.
pub fn answer_decoded<M>(encoding: Encoding, r: Result<M, String>) -> (o: Result<M, HttpError>)
    ensures
        refusal_in(o) == opened(encoding, decoded(r), decoded(r)),
{
    match r {
        Ok(m) => Ok(m),
        Err(e) => match encoding {
            Encoding::Protobuf => Err(HttpError::BadProtobuf(e)),
            Encoding::Json => Err(HttpError::BadJson(e)),
        },
    }
}

/// A body as a request with log records.
pub fn decode_logs_request(encoding: Encoding, body: &[u8]) -> (r: Result<
    ExportLogsServiceRequest,
    HttpError,
>)
    ensures
        refusal_in(r) == opened(encoding, protobuf_logs(body@), json_logs(body@)),
{
    let m = match encoding {
        Encoding::Protobuf => decode_protobuf_logs(body),
        Encoding::Json => decode_json_logs(body),
    };
    answer_decoded(encoding, m)
}

/// A body as a request with spans.
pub fn decode_trace_request(encoding: Encoding, body: &[u8]) -> (r: Result<
    ExportTraceServiceRequest,
    HttpError,
>)
    ensures
        refusal_in(r) == opened(encoding, protobuf_traces(body@), json_traces(body@)),
{
    let m = match encoding {
        Encoding::Protobuf => decode_protobuf_traces(body),
        Encoding::Json => decode_json_traces(body),
    };
    answer_decoded(encoding, m)
}

/// A body as a request with metrics.
pub fn decode_metrics_request(encoding: Encoding, body: &[u8]) -> (r: Result<
    ExportMetricsServiceRequest,
    HttpError,
>)
    ensures
        refusal_in(r) == opened(encoding, protobuf_metrics(body@), json_metrics(body@)),
{
    let m = match encoding {
        Encoding::Protobuf => decode_protobuf_metrics(body),
        Encoding::Json => decode_json_metrics(body),
    };
    answer_decoded(encoding, m)
}

/// What becomes of a request with a content type, given what becomes of its body
/// in each encoding.
pub open spec fn received<M>(
    content_type: Option<Seq<u8>>,
    protobuf: Result<M, Seq<char>>,
    json: Result<M, Seq<char>>,
) -> Result<(Encoding, M), HttpRefusal> {
    match encoding_for(content_type) {
        Err(e) => Err(e),
        Ok(encoding) => match opened(encoding, protobuf, json) {
            Err(e) => Err(e),
            Ok(m) => Ok((encoding, m)),
        },
    }
}

/// A request with log records, and the encoding in which to answer it.
pub fn receive_logs(content_type: &Option<Vec<u8>>, body: &[u8]) -> (r: Result<
    (Encoding, ExportLogsServiceRequest),
    HttpError,
>)
    ensures
        refusal_in(r) == received(
            crate::path::bytes_in(*content_type),
            protobuf_logs(body@),
            json_logs(body@),
        ),
{
    match detect_encoding(content_type) {
        Err(e) => Err(e),
        Ok(encoding) => match decode_logs_request(encoding, body) {
            Err(e) => Err(e),
            Ok(m) => Ok((encoding, m)),
        },
    }
}

/// A request with spans, and the encoding in which to answer it.
pub fn receive_traces(content_type: &Option<Vec<u8>>, body: &[u8]) -> (r: Result<
    (Encoding, ExportTraceServiceRequest),
    HttpError,
>)
    ensures
        refusal_in(r) == received(
            crate::path::bytes_in(*content_type),
            protobuf_traces(body@),
            json_traces(body@),
        ),
{
    match detect_encoding(content_type) {
        Err(e) => Err(e),
        Ok(encoding) => match decode_trace_request(encoding, body) {
            Err(e) => Err(e),
            Ok(m) => Ok((encoding, m)),
        },
    }
}

/// A request with metrics, and the encoding in which to answer it.
pub fn receive_metrics(content_type: &Option<Vec<u8>>, body: &[u8]) -> (r: Result<
    (Encoding, ExportMetricsServiceRequest),
    HttpError,
>)
    ensures
        refusal_in(r) == received(
            crate::path::bytes_in(*content_type),
            protobuf_metrics(body@),
            json_metrics(body@),
        ),
{
    match detect_encoding(content_type) {
        Err(e) => Err(e),
        Ok(encoding) => match decode_metrics_request(encoding, body) {
            Err(e) => Err(e),
            Ok(m) => Ok((encoding, m)),
        },
    }
}

// ---------------------------------------------------------------------------
// Answers
// ---------------------------------------------------------------------------

/// The answer to a request that was taken whole.
pub struct Accepted {
    pub content_type: &'static str,
    pub body: Vec<u8>,
}

/// The body of the answer to a request that was taken whole.
pub open spec fn accepted_body(encoding: Encoding) -> Seq<u8> {
    match encoding {
        Encoding::Protobuf => Seq::empty(),
        Encoding::Json => empty_response_json(),
    }
}

/// The answer to a request that was taken whole, in the encoding of the request.
pub fn encode_response(encoding: Encoding, signal: ProxySignal) -> (r: Accepted)
    ensures
        r.content_type@ == media_type_of(encoding),
        r.body@ == accepted_body(encoding),
{
    let body = match encoding {
        Encoding::Protobuf => match signal {
            ProxySignal::Logs => encode_protobuf_logs(),
            ProxySignal::Traces => encode_protobuf_traces(),
            ProxySignal::Metrics => encode_protobuf_metrics(),
        },
        Encoding::Json => match signal {
            ProxySignal::Logs => encode_json_logs(),
            ProxySignal::Traces => encode_json_traces(),
            ProxySignal::Metrics => encode_json_metrics(),
        },
    };
    Accepted { content_type: encoding.media_type(), body }
}

/// The answer to a request that was read, once it is known whether its batch was
/// kept and, if not, why.
pub fn acknowledge(encoding: Encoding, signal: ProxySignal, failure: Option<String>) -> (r: Result<
    Accepted,
    HttpError,
>)
    ensures
        match failure {
            Some(cause) => r matches Err(e) && e@ == HttpRefusal::Persistence(cause@),
            None => r matches Ok(a) && a.content_type@ == media_type_of(encoding) && a.body@
                == accepted_body(encoding),
        },
{
    match failure {
        Some(cause) => Err(HttpError::Persistence(cause)),
        None => Ok(encode_response(encoding, signal)),
    }
}

/// The status codes after which an OTLP exporter sends a batch again.
pub open spec fn retryable(status: u16) -> bool {
    status == 429 || status == 502 || status == 503 || status == 504
}

/// A batch that could not be kept is sent again; one that cannot be read is not.
pub proof fn law_only_lost_batches_come_again(e: HttpRefusal)
    ensures
        retryable(status_of(e)) <==> e is Persistence,
{
}

/// Capitals in a content type make no difference to how a body is read.
pub proof fn law_media_types_have_no_case(a: Seq<u8>, b: Seq<u8>)
    requires
        header_text(a) matches Some(x) && header_text(b) matches Some(y)
            && crate::text::ascii_lower(primary_type(x)) == crate::text::ascii_lower(
            primary_type(y),
        ),
    ensures
        encoding_for(Some(a)) is Ok <==> encoding_for(Some(b)) is Ok,
        encoding_for(Some(a)) is Ok ==> encoding_for(Some(a)) == encoding_for(Some(b)),
{
}

/// A body that cannot be read is answered with 400, one of another media type with
/// 415, and one that could not be kept with 503, each with a text that says why.
pub proof fn law_answers_say_what_went_wrong(t: Seq<char>)
    ensures
        status_of(HttpRefusal::UnsupportedContentType(t)) == 415,
        status_of(HttpRefusal::BadProtobuf(t)) == 400,
        status_of(HttpRefusal::BadJson(t)) == 400,
        status_of(HttpRefusal::Persistence(t)) == 503,
        refusal_text(HttpRefusal::UnsupportedContentType(t)) == "unsupported content type: "@ + t,
        refusal_text(HttpRefusal::BadProtobuf(t)) == "failed to decode protobuf body: "@ + t,
        refusal_text(HttpRefusal::BadJson(t)) == "failed to decode JSON body: "@ + t,
        refusal_text(HttpRefusal::Persistence(t)) == "failed to persist telemetry: "@ + t,
{
}

/// The bytes of a content type that is written in visible characters.
pub open spec fn written_as(value: Seq<u8>, text: Seq<char>) -> bool {
    value.len() == text.len() && forall|i: int|
        0 <= i < text.len() ==> value[i] == #[trigger] text[i] as int && (' ' <= text[i] <= '~'
            || text[i] == '\t')
}

/// A body without a content type is protobuf. With one it goes by the media type in
/// front of the parameters, whatever white space stands around it and however it is
/// capitalized: protobuf and JSON are read, and any other type is refused by name.
pub proof fn law_bodies_go_by_their_media_type(
    value: Seq<u8>,
    front: Seq<char>,
    name: Seq<char>,
    back: Seq<char>,
    parameters: Seq<char>,
    bare: bool,
)
    requires
        forall|i: int| 0 <= i < front.len() ==> crate::text::white_space(#[trigger] front[i]),
        forall|i: int| 0 <= i < back.len() ==> crate::text::white_space(#[trigger] back[i]),
        name.len() > 0 ==> !crate::text::white_space(name[0]) && !crate::text::white_space(
            name.last(),
        ),
        !(front + name + back).contains(';'),
        written_as(
            value,
            if bare {
                front + name + back
            } else {
                (front + name + back).push(';') + parameters
            },
        ),
    ensures
        encoding_for(None) == Ok::<Encoding, HttpRefusal>(Encoding::Protobuf),
        ({
            let lower = crate::text::ascii_lower(name);
            &&& lower == "application/x-protobuf"@ ==> encoding_for(Some(value)) == Ok::<
                Encoding,
                HttpRefusal,
            >(Encoding::Protobuf)
            &&& lower == "application/json"@ ==> encoding_for(Some(value)) == Ok::<
                Encoding,
                HttpRefusal,
            >(Encoding::Json)
            &&& lower != "application/x-protobuf"@ && lower != "application/json"@
                ==> encoding_for(Some(value)) == Err::<Encoding, HttpRefusal>(
                HttpRefusal::UnsupportedContentType(name),
            )
        }),
{
    let all = front + name + back;
    let text = if bare {
        all
    } else {
        all.push(';') + parameters
    };
    crate::text::law_before_a_character(all, ';', parameters);
    crate::text::law_trimming(front, name, back);
    assert forall|i: int| 0 <= i < value.len() implies visible(#[trigger] value[i]) by {
        assert(value[i] == text[i] as int);
    }
    assert(header_text(value)->0 =~= text) by {
        assert forall|i: int| 0 <= i < text.len() implies value[i] as char == #[trigger] text[i] by {
            assert(value[i] == text[i] as int);
        }
    }
    reveal_strlit("application/x-protobuf");
    reveal_strlit("application/json");
    assert("application/x-protobuf"@.len() == 22);
    assert("application/json"@.len() == 16);
}

/// A content type that holds a control character, or a byte beyond ASCII, is refused.
pub proof fn law_content_types_are_text(value: Seq<u8>, i: int)
    requires
        0 <= i < value.len(),
        (value[i] < 32 && value[i] != 9) || value[i] >= 127,
    ensures
        encoding_for(Some(value)) == Err::<Encoding, HttpRefusal>(
            HttpRefusal::UnsupportedContentType("<invalid header value>"@),
        ),
{
    assert(!visible(value[i]));
}

/// A body is read by the decoder of its own encoding, and what the other would make of
/// it does not matter.
pub proof fn law_bodies_are_read_in_their_own_encoding<M>(
    content_type: Option<Seq<u8>>,
    protobuf: Result<M, Seq<char>>,
    json: Result<M, Seq<char>>,
)
    ensures
        ({
            let r = received(content_type, protobuf, json);
            match encoding_for(content_type) {
                Err(e) => r == Err::<(Encoding, M), HttpRefusal>(e),
                Ok(Encoding::Protobuf) => match protobuf {
                    Ok(m) => r == Ok::<(Encoding, M), HttpRefusal>((Encoding::Protobuf, m)),
                    Err(t) => r == Err::<(Encoding, M), HttpRefusal>(HttpRefusal::BadProtobuf(t)),
                },
                Ok(Encoding::Json) => match json {
                    Ok(m) => r == Ok::<(Encoding, M), HttpRefusal>((Encoding::Json, m)),
                    Err(t) => r == Err::<(Encoding, M), HttpRefusal>(HttpRefusal::BadJson(t)),
                },
            }
        }),
{
}

/// A request is answered in its own encoding: with an empty body in protobuf, and with
/// an object without a partial success in JSON.
pub proof fn law_answers_are_in_the_encoding_of_the_request()
    ensures
        media_type_of(Encoding::Protobuf) == "application/x-protobuf"@,
        media_type_of(Encoding::Json) == "application/json"@,
        accepted_body(Encoding::Protobuf).len() == 0,
        accepted_body(Encoding::Json) == crate::config::ascii_bytes("{\"partialSuccess\":null}"@),
{
}

/// A batch that was kept is answered in the encoding of its request, and one that was not
/// with 503 and why.
pub proof fn law_answers(
    encoding: Encoding,
    signal: ProxySignal,
    failure: Option<String>,
    r: Result<Accepted, HttpError>,
)
    requires
        call_ensures(acknowledge, (encoding, signal, failure), r),
    ensures
        r is Ok <==> failure is None,
        failure matches Some(cause) ==> status_of(r->Err_0@) == 503 && refusal_text(r->Err_0@)
            == "failed to persist telemetry: "@ + cause@,
        failure is None && encoding == Encoding::Protobuf ==> r->Ok_0.content_type@
            == "application/x-protobuf"@ && r->Ok_0.body@.len() == 0,
        failure is None && encoding == Encoding::Json ==> r->Ok_0.content_type@
            == "application/json"@ && r->Ok_0.body@ == crate::config::ascii_bytes(
            "{\"partialSuccess\":null}"@,
        ),
{
}

} // verus!
