//! Batches as JSON Lines: one line for each, with its kind and all that its
//! exporter sent.

use crate::config::{bytes_of, ProxySignal};
use opentelemetry_proto::tonic::collector::logs::v1::ExportLogsServiceRequest;
use opentelemetry_proto::tonic::collector::metrics::v1::ExportMetricsServiceRequest;
use opentelemetry_proto::tonic::collector::trace::v1::ExportTraceServiceRequest;
use vstd::prelude::*;

verus! {

/// What an encoder made of a value: bytes, or the text of its error.
pub open spec fn encoded(r: Result<Vec<u8>, String>) -> Result<Seq<u8>, Seq<char>> {
    match r {
        Ok(b) => Ok(b@),
        Err(e) => Err(e@),
    }
}

/// The line feed.
pub const LINE_FEED: u8 = 10;

/// Whether a text, in ASCII, stands at the start of bytes.
pub open spec fn opens_with(bytes: Seq<u8>, start: Seq<char>) -> bool {
    bytes.len() >= start.len() && bytes.take(start.len() as int) == crate::config::ascii_bytes(
        start,
    )
}

/// Whether bytes are all on one line.
pub open spec fn on_one_line(bytes: Seq<u8>) -> bool {
    forall|i: int| 0 <= i < bytes.len() ==> #[trigger] bytes[i] != LINE_FEED
}

/// Whether bytes are one line: the line feed at their end is the only one.
pub open spec fn is_line(bytes: Seq<u8>) -> bool {
    bytes.len() > 0 && bytes.last() == LINE_FEED && on_one_line(bytes.drop_last())
}

/// What `serde_json::to_vec` makes of a request with log records.
pub uninterp spec fn logs_json(req: ExportLogsServiceRequest) -> Result<Seq<u8>, Seq<char>>;

/// A request with log records as JSON, from `serde_json::to_vec`. The result is
/// named; it is an object that opens with the one field of the request, and it
/// holds no line feed, because those in strings are escaped and none are put
/// between the parts. That decoding gives the request back is not claimed: a
/// number in an attribute that is not finite is written as null.
#[verifier::external_body]
fn encode_logs(req: &ExportLogsServiceRequest) -> (r: Result<Vec<u8>, String>)
    ensures
        encoded(r) == logs_json(*req),
        r matches Ok(json) ==> opens_with(json@, "{\"resourceLogs\":"@) && on_one_line(json@),
{
    serde_json::to_vec(req).map_err(|e| e.to_string())
}

/// What `serde_json::to_vec` makes of a request with spans.
pub uninterp spec fn traces_json(req: ExportTraceServiceRequest) -> Result<Seq<u8>, Seq<char>>;

/// A request with spans as JSON, from `serde_json::to_vec`. The result is named;
/// it is an object that opens with the one field of the request, and it holds no
/// line feed, because those in strings are escaped and none are put between the
/// parts. That decoding gives the request back is not claimed: a number in an
/// attribute that is not finite is written as null.
#[verifier::external_body]
fn encode_traces(req: &ExportTraceServiceRequest) -> (r: Result<Vec<u8>, String>)
    ensures
        encoded(r) == traces_json(*req),
        r matches Ok(json) ==> opens_with(json@, "{\"resourceSpans\":"@) && on_one_line(json@),
{
    serde_json::to_vec(req).map_err(|e| e.to_string())
}

/// What `serde_json::to_vec` makes of a request with metrics.
pub uninterp spec fn metrics_json(req: ExportMetricsServiceRequest) -> Result<Seq<u8>, Seq<char>>;

/// A request with metrics as JSON, from `serde_json::to_vec`. The result is
/// named; it is an object that opens with the one field of the request, and it
/// holds no line feed, because those in strings are escaped and none are put
/// between the parts. That decoding gives the request back is not claimed: a
/// number in an attribute that is not finite is written as null.
#[verifier::external_body]
fn encode_metrics(req: &ExportMetricsServiceRequest) -> (r: Result<Vec<u8>, String>)
    ensures
        encoded(r) == metrics_json(*req),
        r matches Ok(json) ==> opens_with(json@, "{\"resourceMetrics\":"@) && on_one_line(json@),
{
    serde_json::to_vec(req).map_err(|e| e.to_string())
}

/// How the line of a batch opens: with the kind of the batch.
pub open spec fn opening(signal: ProxySignal) -> Seq<char> {
    match signal {
        ProxySignal::Logs => "{\"kind\":\"logs\","@,
        ProxySignal::Traces => "{\"kind\":\"traces\","@,
        ProxySignal::Metrics => "{\"kind\":\"metrics\","@,
    }
}

/// The line for a batch of a kind whose JSON object is given: the kind, followed
/// by what the object holds, and a line feed.
pub open spec fn line_of(signal: ProxySignal, json: Seq<u8>) -> Seq<u8> {
    (crate::config::ascii_bytes(opening(signal)) + json.skip(1)).push(LINE_FEED)
}

/// The line for a batch of a kind, given its JSON object.
pub fn frame_line(signal: ProxySignal, json: &Vec<u8>) -> (r: Vec<u8>)
    requires
        json@.len() > 0,
    ensures
        r@ == line_of(signal, json@),
{
    proof {
        reveal_strlit("{\"kind\":\"logs\",");
        reveal_strlit("{\"kind\":\"traces\",");
        reveal_strlit("{\"kind\":\"metrics\",");
    }
    let mut line = match signal {
        ProxySignal::Logs => bytes_of("{\"kind\":\"logs\","),
        ProxySignal::Traces => bytes_of("{\"kind\":\"traces\","),
        ProxySignal::Metrics => bytes_of("{\"kind\":\"metrics\","),
    };
    let ghost start = line@;
    assert(start =~= crate::config::ascii_bytes(opening(signal)));
    let mut i: usize = 1;
    while i < json.len()
        invariant
            1 <= i <= json@.len(),
            line@ == start + json@.subrange(1, i as int),
        decreases json@.len() - i,
    {
        line.push(json[i]);
        assert(line@ =~= start + json@.subrange(1, i + 1));
        i = i + 1;
    }
    assert(json@.subrange(1, json@.len() as int) =~= json@.skip(1));
    line.push(LINE_FEED);
    line
}

/// What becomes of a batch of a kind, given what the encoder makes of it.
pub open spec fn written(signal: ProxySignal, json: Result<Seq<u8>, Seq<char>>) -> Result<
    Seq<u8>,
    Seq<char>,
> {
    match json {
        Ok(j) => Ok(line_of(signal, j)),
        Err(e) => Err(e),
    }
}

/// The line for a request with log records.
pub fn logs_line(req: &ExportLogsServiceRequest) -> (r: Result<Vec<u8>, String>)
    ensures
        encoded(r) == written(ProxySignal::Logs, logs_json(*req)),
        r matches Ok(line) ==> is_line(line@),
{
    match encode_logs(req) {
        Ok(json) => {
            proof {
                reveal_strlit("{\"resourceLogs\":");
                law_a_batch_is_one_line(ProxySignal::Logs, json@);
            }
            Ok(frame_line(ProxySignal::Logs, &json))
        },
        Err(e) => Err(e),
    }
}

/// The line for a request with spans.
pub fn traces_line(req: &ExportTraceServiceRequest) -> (r: Result<Vec<u8>, String>)
    ensures
        encoded(r) == written(ProxySignal::Traces, traces_json(*req)),
        r matches Ok(line) ==> is_line(line@),
{
    match encode_traces(req) {
        Ok(json) => {
            proof {
                reveal_strlit("{\"resourceSpans\":");
                law_a_batch_is_one_line(ProxySignal::Traces, json@);
            }
            Ok(frame_line(ProxySignal::Traces, &json))
        },
        Err(e) => Err(e),
    }
}

/// The line for a request with metrics.
pub fn metrics_line(req: &ExportMetricsServiceRequest) -> (r: Result<Vec<u8>, String>)
    ensures
        encoded(r) == written(ProxySignal::Metrics, metrics_json(*req)),
        r matches Ok(line) ==> is_line(line@),
{
    match encode_metrics(req) {
        Ok(json) => {
            proof {
                reveal_strlit("{\"resourceMetrics\":");
                law_a_batch_is_one_line(ProxySignal::Metrics, json@);
            }
            Ok(frame_line(ProxySignal::Metrics, &json))
        },
        Err(e) => Err(e),
    }
}

/// A batch makes one line: the line feed at its end is the only one.
pub proof fn law_a_batch_is_one_line(signal: ProxySignal, json: Seq<u8>)
    requires
        json.len() > 0,
        on_one_line(json),
    ensures
        is_line(line_of(signal, json)),
{
    reveal_strlit("{\"kind\":\"logs\",");
    reveal_strlit("{\"kind\":\"traces\",");
    reveal_strlit("{\"kind\":\"metrics\",");
    let start = crate::config::ascii_bytes(opening(signal));
    let body = line_of(signal, json).drop_last();
    assert(body =~= start + json.skip(1));
    assert forall|i: int| 0 <= i < body.len() implies #[trigger] body[i] != LINE_FEED by {
        if i < start.len() {
            assert(start[i] == opening(signal)[i] as u8);
        } else {
            assert(body[i] == json[i - start.len() + 1]);
        }
    }
}

/// Nothing is lost in a line: the kind and the JSON object can be had back from
/// it.
pub proof fn law_a_line_gives_back_its_batch(
    a: ProxySignal,
    x: Seq<u8>,
    b: ProxySignal,
    y: Seq<u8>,
)
    requires
        x.len() > 0,
        y.len() > 0,
        x[0] == y[0],
        line_of(a, x) == line_of(b, y),
    ensures
        a == b,
        x == y,
{
    reveal_strlit("{\"kind\":\"logs\",");
    reveal_strlit("{\"kind\":\"traces\",");
    reveal_strlit("{\"kind\":\"metrics\",");
    let p = crate::config::ascii_bytes(opening(a));
    let q = crate::config::ascii_bytes(opening(b));
    let l = line_of(a, x);
    let m = line_of(b, y);
    assert(l[9] == p[9] && m[9] == q[9]);
    assert(p[9] == opening(a)[9] as u8 && q[9] == opening(b)[9] as u8);
    assert(a == b);
    assert(x.skip(1).len() == x.len() - 1 && y.skip(1).len() == y.len() - 1);
    assert(l.len() == p.len() + x.len() && m.len() == q.len() + y.len());
    assert forall|i: int| 0 <= i < x.len() implies x[i] == y[i] by {
        if i > 0 {
            assert(l[p.len() + i - 1] == x[i]);
            assert(m[q.len() + i - 1] == y[i]);
        }
    }
    assert(x =~= y);
}

/// The line of a batch opens with its kind, goes on with what its JSON object holds
/// behind the opening brace, and ends with a line feed.
pub proof fn law_what_a_line_holds(json: Seq<u8>)
    requires
        json.len() > 0,
    ensures
        line_of(ProxySignal::Logs, json) == crate::config::ascii_bytes(
            "{\"kind\":\"logs\","@,
        ) + json.subrange(1, json.len() as int) + seq![10u8],
        line_of(ProxySignal::Traces, json) == crate::config::ascii_bytes(
            "{\"kind\":\"traces\","@,
        ) + json.subrange(1, json.len() as int) + seq![10u8],
        line_of(ProxySignal::Metrics, json) == crate::config::ascii_bytes(
            "{\"kind\":\"metrics\","@,
        ) + json.subrange(1, json.len() as int) + seq![10u8],
        written(ProxySignal::Logs, Ok(json)) == Ok::<Seq<u8>, Seq<char>>(
            line_of(ProxySignal::Logs, json),
        ),
{
    assert(line_of(ProxySignal::Logs, json) =~= crate::config::ascii_bytes(
        "{\"kind\":\"logs\","@,
    ) + json.subrange(1, json.len() as int) + seq![10u8]);
    assert(line_of(ProxySignal::Traces, json) =~= crate::config::ascii_bytes(
        "{\"kind\":\"traces\","@,
    ) + json.subrange(1, json.len() as int) + seq![10u8]);
    assert(line_of(ProxySignal::Metrics, json) =~= crate::config::ascii_bytes(
        "{\"kind\":\"metrics\","@,
    ) + json.subrange(1, json.len() as int) + seq![10u8]);
}

/// A batch that has no JSON has no line, and the error of the encoder is kept.
pub proof fn law_what_cannot_be_written(signal: ProxySignal, e: Seq<char>)
    ensures
        written(signal, Err(e)) == Err::<Seq<u8>, Seq<char>>(e),
{
}

} // verus!
