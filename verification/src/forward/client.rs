//! How a route reaches its collector.

use crate::cli::headers::Header;
use crate::cli::routes::{ProxyRoute, RouteView};
use crate::config::{ProxySignal, ProxyTransport};
use crate::text::{chars_of, copy_range, push_text, same_text, text_of, to_ascii_lower};
use opentelemetry_proto::tonic::collector::logs::v1::ExportLogsServiceRequest;
use opentelemetry_proto::tonic::collector::metrics::v1::ExportMetricsServiceRequest;
use opentelemetry_proto::tonic::collector::trace::v1::ExportTraceServiceRequest;
use prost::Message;
use vstd::prelude::*;

verus! {

// ---------------------------------------------------------------------------
// Outside functions
// ---------------------------------------------------------------------------

/// What `reqwest::Url::parse` makes of a text, where it accepts it: the scheme,
/// whether there are a host, a query and a fragment, and the URL in its normal
/// form.
pub uninterp spec fn url_of(s: Seq<char>) -> Option<(Seq<char>, bool, bool, bool, Seq<char>)>;

/// A URL.
pub struct UrlParts {
    pub scheme: String,
    pub has_host: bool,
    pub has_query: bool,
    pub has_fragment: bool,
    /// The URL in its normal form.
    pub text: String,
}

/// The parts of an optional URL.
pub open spec fn parts_in(u: Option<UrlParts>) -> Option<
    (Seq<char>, bool, bool, bool, Seq<char>),
> {
    match u {
        Some(u) => Some((u.scheme@, u.has_host, u.has_query, u.has_fragment, u.text@)),
        None => None,
    }
}

/// The parts of a URL, from `reqwest::Url::parse`. The result is named, not
/// described.
#[verifier::external_body]
fn parse_url(s: &str) -> (r: Option<UrlParts>)
    ensures
        parts_in(r) == url_of(s@),
{
    let url = reqwest::Url::parse(s).ok()?;
    Some(
        UrlParts {
            scheme: url.scheme().to_owned(),
            has_host: url.has_host(),
            has_query: url.query().is_some(),
            has_fragment: url.fragment().is_some(),
            text: url.as_str().to_owned(),
        },
    )
}

/// The scheme of a text that `http::Uri::try_from` accepts; a URI may have
/// none.
pub uninterp spec fn uri_scheme_of(s: Seq<char>) -> Option<Option<Seq<char>>>;

/// The scheme of an optional URI.
pub open spec fn scheme_in(r: Option<Option<String>>) -> Option<Option<Seq<char>>> {
    match r {
        Some(s) => Some(crate::clock::text_in(s)),
        None => None,
    }
}

/// The scheme of a URI, from `http::Uri::try_from`. The result is named, not
/// described.
#[verifier::external_body]
fn uri_scheme(s: &str) -> (r: Option<Option<String>>)
    ensures
        scheme_in(r) == uri_scheme_of(s@),
{
    let uri = http::Uri::try_from(s).ok()?;
    Some(uri.scheme_str().map(|t| t.to_owned()))
}

/// Whether a text begins with another.
pub open spec fn begins_with(s: Seq<char>, start: Seq<char>) -> bool {
    start.len() <= s.len() && s.take(start.len() as int) == start
}

/// Whether `tonic::transport::Endpoint::from_shared` accepts a text: it does
/// where the text begins with `unix:`, and else where it is a URI that
/// `http::Uri::try_from` accepts.
#[verifier::external_body]
fn endpoint_is_valid(s: &str) -> (r: bool)
    ensures
        r == (begins_with(s@, "unix:"@) || uri_scheme_of(s@) is Some),
{
    tonic::transport::Endpoint::from_shared(s.to_owned()).is_ok()
}

/// Whether `tonic::transport::Endpoint::tls_config` accepts the endpoint that a
/// text names, with the root certificates of the `webpki-roots` crate: the
/// endpoint has to have a host that can be the name of a server.
pub uninterp spec fn encrypts(s: Seq<char>) -> bool;

/// Whether the connection to an endpoint can be encrypted, from
/// `tonic::transport::Endpoint::tls_config`. The result is named, not described.
#[verifier::external_body]
fn can_encrypt(s: &str) -> (r: bool)
    ensures
        r == encrypts(s@),
{
    let roots = tonic::transport::ClientTlsConfig::new().with_webpki_roots();
    match tonic::transport::Endpoint::from_shared(s.to_owned()) {
        Ok(endpoint) => endpoint.tls_config(roots).is_ok(),
        Err(_) => false,
    }
}

/// Whether a text is a header name: one to 65535 token characters.
pub open spec fn is_header_name(s: Seq<char>) -> bool {
    1 <= s.len() <= 65535 && forall|i: int|
        0 <= i < s.len() ==> crate::cli::headers::token_char(#[trigger] s[i])
}

/// Whether a text is a header value: no control character of ASCII but the tab.
pub open spec fn is_header_value(s: Seq<char>) -> bool {
    forall|i: int|
        0 <= i < s.len() ==> (#[trigger] s[i] == '\t' || (s[i] as int >= 32 && s[i] as int != 127))
}

/// Whether `reqwest::header::HeaderName::from_bytes` accepts the bytes of a
/// text: it does where they are one to 65535 token characters.
#[verifier::external_body]
fn header_name_is_valid(s: &str) -> (r: bool)
    ensures
        r == is_header_name(s@),
{
    reqwest::header::HeaderName::from_bytes(s.as_bytes()).is_ok()
}

/// Whether `reqwest::header::HeaderValue::from_str` accepts a text: it does
/// where no byte is a control character of ASCII but the tab.
#[verifier::external_body]
fn header_value_is_valid(s: &str) -> (r: bool)
    ensures
        r == is_header_value(s@),
{
    reqwest::header::HeaderValue::from_str(s).is_ok()
}

/// Whether a text ends with `-bin`, which marks binary metadata.
pub open spec fn is_binary_key(s: Seq<char>) -> bool {
    s.len() >= 4 && crate::text::ascii_lower(s).skip(s.len() - 4) == "-bin"@
}

/// Whether `tonic::metadata::AsciiMetadataKey::from_bytes` accepts the bytes of
/// a text: it does where they are a header name that does not end with `-bin`.
#[verifier::external_body]
fn metadata_key_is_valid(s: &str) -> (r: bool)
    ensures
        r == (is_header_name(s@) && !is_binary_key(s@)),
{
    tonic::metadata::AsciiMetadataKey::from_bytes(s.as_bytes()).is_ok()
}

/// Whether `tonic::metadata::AsciiMetadataValue::try_from` accepts a text: it
/// does where the text is a header value.
#[verifier::external_body]
fn metadata_value_is_valid(s: &str) -> (r: bool)
    ensures
        r == is_header_value(s@),
{
    tonic::metadata::AsciiMetadataValue::try_from(s).is_ok()
}

/// The protobuf encoding of a request with log records, from
/// `prost::Message::encode_to_vec`.
pub uninterp spec fn logs_protobuf(req: ExportLogsServiceRequest) -> Seq<u8>;

/// The protobuf encoding of a request with log records, from
/// `prost::Message::encode_to_vec`. The result is named, not described.
#[verifier::external_body]
fn encode_logs(req: &ExportLogsServiceRequest) -> (r: Vec<u8>)
    ensures
        r@ == logs_protobuf(*req),
{
    req.encode_to_vec()
}

/// The protobuf encoding of a request with spans, from
/// `prost::Message::encode_to_vec`.
pub uninterp spec fn traces_protobuf(req: ExportTraceServiceRequest) -> Seq<u8>;

/// The protobuf encoding of a request with spans, from
/// `prost::Message::encode_to_vec`. The result is named, not described.
#[verifier::external_body]
fn encode_traces(req: &ExportTraceServiceRequest) -> (r: Vec<u8>)
    ensures
        r@ == traces_protobuf(*req),
{
    req.encode_to_vec()
}

/// The protobuf encoding of a request with metrics, from
/// `prost::Message::encode_to_vec`.
pub uninterp spec fn metrics_protobuf(req: ExportMetricsServiceRequest) -> Seq<u8>;

/// The protobuf encoding of a request with metrics, from
/// `prost::Message::encode_to_vec`. The result is named, not described.
#[verifier::external_body]
fn encode_metrics(req: &ExportMetricsServiceRequest) -> (r: Vec<u8>)
    ensures
        r@ == metrics_protobuf(*req),
{
    req.encode_to_vec()
}

// ---------------------------------------------------------------------------
// Clients
// ---------------------------------------------------------------------------

/// How a route reaches its collector over gRPC.
pub struct GrpcClient {
    pub endpoint: String,
    /// Whether the connection is encrypted.
    pub tls: bool,
    /// Metadata, with keys in lower case.
    pub metadata: Vec<Header>,
    pub timeout_ms: u64,
}

/// How a route reaches its collector over HTTP.
pub struct HttpClient {
    pub logs_url: String,
    pub traces_url: String,
    pub metrics_url: String,
    /// Headers to set in turn; the media type comes first.
    pub headers: Vec<Header>,
    pub timeout_ms: u64,
}

/// How a route reaches its collector.
pub enum RouteClient {
    Grpc(GrpcClient),
    Http(HttpClient),
}

/// How a route reaches its collector.
#[verifier::ext_equal]
pub enum ClientView {
    Grpc {
        endpoint: Seq<char>,
        tls: bool,
        metadata: Seq<(Seq<char>, Seq<char>)>,
        timeout_ms: u64,
    },
    Http {
        logs_url: Seq<char>,
        traces_url: Seq<char>,
        metrics_url: Seq<char>,
        headers: Seq<(Seq<char>, Seq<char>)>,
        timeout_ms: u64,
    },
}

impl View for RouteClient {
    type V = ClientView;

    open spec fn view(&self) -> ClientView {
        match self {
            RouteClient::Grpc(c) => ClientView::Grpc {
                endpoint: c.endpoint@,
                tls: c.tls,
                metadata: crate::cli::headers::header_views(c.metadata@),
                timeout_ms: c.timeout_ms,
            },
            RouteClient::Http(c) => ClientView::Http {
                logs_url: c.logs_url@,
                traces_url: c.traces_url@,
                metrics_url: c.metrics_url@,
                headers: crate::cli::headers::header_views(c.headers@),
                timeout_ms: c.timeout_ms,
            },
        }
    }
}

/// Why a route cannot be used.
pub enum ClientError {
    /// The endpoint of a gRPC route cannot be read.
    GrpcEndpoint { route: String },
    /// The endpoint of an HTTP route cannot be read.
    HttpEndpoint { route: String, endpoint: String },
    /// The endpoint is no absolute HTTP URL.
    NotAbsolute { route: String, endpoint: String },
    /// The endpoint holds a query or a fragment.
    QueryOrFragment { route: String, endpoint: String },
    /// No URL for a kind of telemetry can be made.
    SignalUrl { route: String, path: String },
    /// A metadata key cannot be sent.
    MetadataKey { route: String, key: String },
    /// A metadata value cannot be sent.
    MetadataValue { route: String, key: String },
    /// A header key cannot be sent.
    HeaderKey { route: String, key: String },
    /// A header value cannot be sent.
    HeaderValue { route: String, key: String },
}

/// Why a route cannot be used.
#[verifier::ext_equal]
pub enum ClientRefusal {
    GrpcEndpoint { route: Seq<char> },
    HttpEndpoint { route: Seq<char>, endpoint: Seq<char> },
    NotAbsolute { route: Seq<char>, endpoint: Seq<char> },
    QueryOrFragment { route: Seq<char>, endpoint: Seq<char> },
    SignalUrl { route: Seq<char>, path: Seq<char> },
    MetadataKey { route: Seq<char>, key: Seq<char> },
    MetadataValue { route: Seq<char>, key: Seq<char> },
    HeaderKey { route: Seq<char>, key: Seq<char> },
    HeaderValue { route: Seq<char>, key: Seq<char> },
}

impl View for ClientError {
    type V = ClientRefusal;

    open spec fn view(&self) -> ClientRefusal {
        match self {
            ClientError::GrpcEndpoint { route } => ClientRefusal::GrpcEndpoint { route: route@ },
            ClientError::HttpEndpoint { route, endpoint } => ClientRefusal::HttpEndpoint {
                route: route@,
                endpoint: endpoint@,
            },
            ClientError::NotAbsolute { route, endpoint } => ClientRefusal::NotAbsolute {
                route: route@,
                endpoint: endpoint@,
            },
            ClientError::QueryOrFragment { route, endpoint } => ClientRefusal::QueryOrFragment {
                route: route@,
                endpoint: endpoint@,
            },
            ClientError::SignalUrl { route, path } => ClientRefusal::SignalUrl {
                route: route@,
                path: path@,
            },
            ClientError::MetadataKey { route, key } => ClientRefusal::MetadataKey {
                route: route@,
                key: key@,
            },
            ClientError::MetadataValue { route, key } => ClientRefusal::MetadataValue {
                route: route@,
                key: key@,
            },
            ClientError::HeaderKey { route, key } => ClientRefusal::HeaderKey {
                route: route@,
                key: key@,
            },
            ClientError::HeaderValue { route, key } => ClientRefusal::HeaderValue {
                route: route@,
                key: key@,
            },
        }
    }
}

/// What a refusal is reported as.
pub open spec fn client_message(e: ClientRefusal) -> Seq<char> {
    match e {
        ClientRefusal::GrpcEndpoint { route } => "build gRPC endpoint for route `"@ + route
            + "`"@,
        ClientRefusal::HttpEndpoint { route, endpoint } => "parse HTTP endpoint `"@ + endpoint
            + "` for route `"@ + route + "`"@,
        ClientRefusal::NotAbsolute { route, endpoint } => "HTTP endpoint `"@ + endpoint
            + "` for route `"@ + route + "` must be an absolute HTTP(S) URL"@,
        ClientRefusal::QueryOrFragment { route, endpoint } => "HTTP endpoint `"@ + endpoint
            + "` for route `"@ + route + "` must not contain a query or fragment"@,
        ClientRefusal::SignalUrl { route, path } => "build OTLP/HTTP URL `"@ + path
            + "` for route `"@ + route + "`"@,
        ClientRefusal::MetadataKey { route, key } => "invalid metadata key `"@ + key
            + "` for route `"@ + route + "`"@,
        ClientRefusal::MetadataValue { route, key } => "invalid metadata value for header `"@ + key
            + "` on route `"@ + route + "`"@,
        ClientRefusal::HeaderKey { route, key } => "invalid HTTP header key `"@ + key
            + "` on route `"@ + route + "`"@,
        ClientRefusal::HeaderValue { route, key } => "invalid HTTP header value for `"@ + key
            + "` on route `"@ + route + "`"@,
    }
}

impl ClientError {
    /// What the refusal is reported as.
    pub fn message(&self) -> (r: String)
        ensures
            r@ == client_message(self@),
    {
        let mut m = String::new();
        match self {
            ClientError::GrpcEndpoint { route } => {
                push_text(&mut m, "build gRPC endpoint for route `");
                push_text(&mut m, route.as_str());
                push_text(&mut m, "`");
            },
            ClientError::HttpEndpoint { route, endpoint } => {
                push_text(&mut m, "parse HTTP endpoint `");
                push_text(&mut m, endpoint.as_str());
                push_text(&mut m, "` for route `");
                push_text(&mut m, route.as_str());
                push_text(&mut m, "`");
            },
            ClientError::NotAbsolute { route, endpoint } => {
                push_text(&mut m, "HTTP endpoint `");
                push_text(&mut m, endpoint.as_str());
                push_text(&mut m, "` for route `");
                push_text(&mut m, route.as_str());
                push_text(&mut m, "` must be an absolute HTTP(S) URL");
            },
            ClientError::QueryOrFragment { route, endpoint } => {
                push_text(&mut m, "HTTP endpoint `");
                push_text(&mut m, endpoint.as_str());
                push_text(&mut m, "` for route `");
                push_text(&mut m, route.as_str());
                push_text(&mut m, "` must not contain a query or fragment");
            },
            ClientError::SignalUrl { route, path } => {
                push_text(&mut m, "build OTLP/HTTP URL `");
                push_text(&mut m, path.as_str());
                push_text(&mut m, "` for route `");
                push_text(&mut m, route.as_str());
                push_text(&mut m, "`");
            },
            ClientError::MetadataKey { route, key } => {
                push_text(&mut m, "invalid metadata key `");
                push_text(&mut m, key.as_str());
                push_text(&mut m, "` for route `");
                push_text(&mut m, route.as_str());
                push_text(&mut m, "`");
            },
            ClientError::MetadataValue { route, key } => {
                push_text(&mut m, "invalid metadata value for header `");
                push_text(&mut m, key.as_str());
                push_text(&mut m, "` on route `");
                push_text(&mut m, route.as_str());
                push_text(&mut m, "`");
            },
            ClientError::HeaderKey { route, key } => {
                push_text(&mut m, "invalid HTTP header key `");
                push_text(&mut m, key.as_str());
                push_text(&mut m, "` on route `");
                push_text(&mut m, route.as_str());
                push_text(&mut m, "`");
            },
            ClientError::HeaderValue { route, key } => {
                push_text(&mut m, "invalid HTTP header value for `");
                push_text(&mut m, key.as_str());
                push_text(&mut m, "` on route `");
                push_text(&mut m, route.as_str());
                push_text(&mut m, "`");
            },
        }
        assert(m@ =~= client_message(self@));
        m
    }
}

/// Metadata out of headers, or the first that cannot be sent.
pub open spec fn metadata_for(headers: Seq<(Seq<char>, Seq<char>)>, route: Seq<char>) -> Result<
    Seq<(Seq<char>, Seq<char>)>,
    ClientRefusal,
>
    decreases headers.len(),
{
    if headers.len() == 0 {
        Ok(Seq::empty())
    } else {
        match metadata_for(headers.drop_last(), route) {
            Err(e) => Err(e),
            Ok(front) => {
                let key = crate::text::ascii_lower(headers.last().0);
                let value = headers.last().1;
                if !(is_header_name(key) && !is_binary_key(key)) {
                    Err(ClientRefusal::MetadataKey { route, key: headers.last().0 })
                } else if !is_header_value(value) {
                    Err(ClientRefusal::MetadataValue { route, key: headers.last().0 })
                } else {
                    Ok(front.push((key, value)))
                }
            },
        }
    }
}

/// HTTP headers out of headers, or the first that cannot be sent.
pub open spec fn http_headers_for(headers: Seq<(Seq<char>, Seq<char>)>, route: Seq<char>) -> Result<
    Seq<(Seq<char>, Seq<char>)>,
    ClientRefusal,
>
    decreases headers.len(),
{
    if headers.len() == 0 {
        Ok(seq![("content-type"@, crate::http::protobuf_type())])
    } else {
        match http_headers_for(headers.drop_last(), route) {
            Err(e) => Err(e),
            Ok(front) => if !is_header_name(headers.last().0) {
                Err(ClientRefusal::HeaderKey { route, key: headers.last().0 })
            } else if !is_header_value(headers.last().1) {
                Err(ClientRefusal::HeaderValue { route, key: headers.last().0 })
            } else {
                Ok(front.push(headers.last()))
            },
        }
    }
}

/// A text without the slashes at its end.
pub open spec fn without_slashes(s: Seq<char>) -> Seq<char>
    decreases s.len(),
{
    if s.len() > 0 && s.last() == '/' {
        without_slashes(s.drop_last())
    } else {
        s
    }
}

/// The URL of a path below an endpoint, or that there is none.
pub open spec fn signal_url(
    url: Option<(Seq<char>, bool, bool, bool, Seq<char>)>,
    path: Seq<char>,
    route: Seq<char>,
) -> Result<Seq<char>, ClientRefusal> {
    match url {
        Some(u) => Ok(u.4),
        None => Err(ClientRefusal::SignalUrl { route, path }),
    }
}

/// The client of a gRPC route, where it is known whether the endpoint is one,
/// which scheme it has, and whether the connection to it can be encrypted. It has
/// to be where the scheme is `https`.
pub open spec fn grpc_client_of(
    r: RouteView,
    timeout_ms: u64,
    accepted: bool,
    scheme: Option<Option<Seq<char>>>,
    encryptable: bool,
) -> Result<ClientView, ClientRefusal> {
    let tls = scheme == Some(Some("https"@));
    if !accepted || scheme is None || (tls && !encryptable) {
        Err(ClientRefusal::GrpcEndpoint { route: r.name })
    } else {
        match metadata_for(r.headers, r.name) {
            Err(e) => Err(e),
            Ok(metadata) => Ok(
                ClientView::Grpc { endpoint: r.endpoint, tls, metadata, timeout_ms },
            ),
        }
    }
}

/// The client of a gRPC route.
pub open spec fn grpc_client(r: RouteView, timeout_ms: u64) -> Result<ClientView, ClientRefusal> {
    grpc_client_of(
        r,
        timeout_ms,
        begins_with(r.endpoint, "unix:"@) || uri_scheme_of(r.endpoint) is Some,
        uri_scheme_of(r.endpoint),
        encrypts(r.endpoint),
    )
}

/// The client of an HTTP route, where the URLs of the endpoint and of the paths
/// below it are known. The endpoint has to be an absolute HTTP URL without query
/// and fragment, because the paths are put behind it.
pub open spec fn http_client_of(
    r: RouteView,
    timeout_ms: u64,
    endpoint: Option<(Seq<char>, bool, bool, bool, Seq<char>)>,
    logs: Option<(Seq<char>, bool, bool, bool, Seq<char>)>,
    traces: Option<(Seq<char>, bool, bool, bool, Seq<char>)>,
    metrics: Option<(Seq<char>, bool, bool, bool, Seq<char>)>,
) -> Result<ClientView, ClientRefusal> {
    match endpoint {
        None => Err(ClientRefusal::HttpEndpoint { route: r.name, endpoint: r.endpoint }),
        Some((scheme, has_host, has_query, has_fragment, _)) => if !(scheme == "http"@ || scheme
            == "https"@) || !has_host {
            Err(ClientRefusal::NotAbsolute { route: r.name, endpoint: r.endpoint })
        } else if has_query || has_fragment {
            Err(ClientRefusal::QueryOrFragment { route: r.name, endpoint: r.endpoint })
        } else {
            match (
                signal_url(logs, "/v1/logs"@, r.name),
                signal_url(traces, "/v1/traces"@, r.name),
                signal_url(metrics, "/v1/metrics"@, r.name),
                http_headers_for(r.headers, r.name),
            ) {
                (Err(e), _, _, _) => Err(e),
                (_, Err(e), _, _) => Err(e),
                (_, _, Err(e), _) => Err(e),
                (_, _, _, Err(e)) => Err(e),
                (Ok(logs_url), Ok(traces_url), Ok(metrics_url), Ok(headers)) => Ok(
                    ClientView::Http { logs_url, traces_url, metrics_url, headers, timeout_ms },
                ),
            }
        },
    }
}

/// The client of an HTTP route.
pub open spec fn http_client(r: RouteView, timeout_ms: u64) -> Result<ClientView, ClientRefusal> {
    let base = without_slashes(r.endpoint);
    http_client_of(
        r,
        timeout_ms,
        url_of(r.endpoint),
        url_of(base + "/v1/logs"@),
        url_of(base + "/v1/traces"@),
        url_of(base + "/v1/metrics"@),
    )
}

/// The client of a route.
pub open spec fn client_for(r: RouteView, timeout_ms: u64) -> Result<ClientView, ClientRefusal> {
    match r.transport {
        ProxyTransport::Grpc => grpc_client(r, timeout_ms),
        ProxyTransport::HttpProtobuf => http_client(r, timeout_ms),
    }
}

proof fn lemma_first_bad_metadata(s: Seq<(Seq<char>, Seq<char>)>, route: Seq<char>, k: int)
    requires
        0 <= k <= s.len(),
    ensures
        metadata_for(s.take(k), route) is Err ==> metadata_for(s, route) == metadata_for(
            s.take(k),
            route,
        ),
    decreases s.len(),
{
    if k < s.len() {
        assert(s.drop_last().take(k) =~= s.take(k));
        lemma_first_bad_metadata(s.drop_last(), route, k);
    } else {
        assert(s.take(k) =~= s);
    }
}

proof fn lemma_first_bad_header(s: Seq<(Seq<char>, Seq<char>)>, route: Seq<char>, k: int)
    requires
        0 <= k <= s.len(),
    ensures
        http_headers_for(s.take(k), route) is Err ==> http_headers_for(s, route)
            == http_headers_for(s.take(k), route),
    decreases s.len(),
{
    if k < s.len() {
        assert(s.drop_last().take(k) =~= s.take(k));
        lemma_first_bad_header(s.drop_last(), route, k);
    } else {
        assert(s.take(k) =~= s);
    }
}

fn make_metadata(headers: &Vec<Header>, route: &String) -> (r: Result<Vec<Header>, ClientError>)
    ensures
        match metadata_for(crate::cli::headers::header_views(headers@), route@) {
            Ok(s) => r matches Ok(v) && crate::cli::headers::header_views(v@) == s,
            Err(e) => r matches Err(x) && x@ == e,
        },
{
    let ghost all = crate::cli::headers::header_views(headers@);
    let mut out: Vec<Header> = Vec::new();
    let mut k: usize = 0;
    assert(crate::cli::headers::header_views(out@) =~= Seq::<(Seq<char>, Seq<char>)>::empty());
    assert(all.take(0) =~= Seq::<(Seq<char>, Seq<char>)>::empty());
    while k < headers.len()
        invariant
            k <= headers@.len(),
            all == crate::cli::headers::header_views(headers@),
            metadata_for(all.take(k as int), route@) == Ok::<
                Seq<(Seq<char>, Seq<char>)>,
                ClientRefusal,
            >(crate::cli::headers::header_views(out@)),
        decreases headers@.len() - k,
    {
        proof {
            assert(all.take(k + 1).drop_last() =~= all.take(k as int));
            assert(all[k as int] == headers@[k as int]@);
            lemma_first_bad_metadata(all, route@, k + 1);
        }
        let h = &headers[k];
        let key = text_of(&to_ascii_lower(&chars_of(h.key.as_str())));
        if !metadata_key_is_valid(key.as_str()) {
            return Err(ClientError::MetadataKey { route: route.clone(), key: h.key.clone() });
        }
        if !metadata_value_is_valid(h.value.as_str()) {
            return Err(ClientError::MetadataValue { route: route.clone(), key: h.key.clone() });
        }
        let ghost before = crate::cli::headers::header_views(out@);
        out.push(Header { key, value: h.value.clone() });
        assert(crate::cli::headers::header_views(out@) =~= before.push((key@, h.value@)));
        k = k + 1;
    }
    assert(all.take(all.len() as int) =~= all);
    Ok(out)
}

fn make_http_headers(headers: &Vec<Header>, route: &String) -> (r: Result<
    Vec<Header>,
    ClientError,
>)
    ensures
        match http_headers_for(crate::cli::headers::header_views(headers@), route@) {
            Ok(s) => r matches Ok(v) && crate::cli::headers::header_views(v@) == s,
            Err(e) => r matches Err(x) && x@ == e,
        },
{
    let ghost all = crate::cli::headers::header_views(headers@);
    let mut out: Vec<Header> = Vec::new();
    out.push(
        Header { key: "content-type".to_owned(), value: "application/x-protobuf".to_owned() },
    );
    let mut k: usize = 0;
    assert(crate::cli::headers::header_views(out@) =~= seq![("content-type"@, crate::http::protobuf_type())]);
    assert(all.take(0) =~= Seq::<(Seq<char>, Seq<char>)>::empty());
    while k < headers.len()
        invariant
            k <= headers@.len(),
            all == crate::cli::headers::header_views(headers@),
            http_headers_for(all.take(k as int), route@) == Ok::<
                Seq<(Seq<char>, Seq<char>)>,
                ClientRefusal,
            >(crate::cli::headers::header_views(out@)),
        decreases headers@.len() - k,
    {
        proof {
            assert(all.take(k + 1).drop_last() =~= all.take(k as int));
            assert(all[k as int] == headers@[k as int]@);
            lemma_first_bad_header(all, route@, k + 1);
        }
        let h = &headers[k];
        if !header_name_is_valid(h.key.as_str()) {
            return Err(ClientError::HeaderKey { route: route.clone(), key: h.key.clone() });
        }
        if !header_value_is_valid(h.value.as_str()) {
            return Err(ClientError::HeaderValue { route: route.clone(), key: h.key.clone() });
        }
        let ghost before = crate::cli::headers::header_views(out@);
        out.push(Header { key: h.key.clone(), value: h.value.clone() });
        assert(crate::cli::headers::header_views(out@) =~= before.push((h.key@, h.value@)));
        k = k + 1;
    }
    assert(all.take(all.len() as int) =~= all);
    Ok(out)
}

fn trim_slashes(s: &str) -> (r: String)
    ensures
        r@ == without_slashes(s@),
{
    let chars = chars_of(s);
    let mut n: usize = chars.len();
    assert(chars@.take(n as int) =~= chars@);
    while n > 0 && chars[n - 1] == '/'
        invariant
            n <= chars@.len(),
            without_slashes(chars@) == without_slashes(chars@.take(n as int)),
        decreases n,
    {
        assert(chars@.take(n as int).drop_last() =~= chars@.take(n - 1));
        n = n - 1;
    }
    let kept = copy_range(&chars, 0, n);
    assert(kept@ =~= chars@.take(n as int));
    text_of(&kept)
}

/// Parses the URL of a path below an endpoint.
fn parse_below(base: &String, path: &str) -> (r: Option<UrlParts>)
    ensures
        parts_in(r) == url_of(base@ + path@),
{
    let mut text = base.clone();
    push_text(&mut text, path);
    parse_url(text.as_str())
}

impl GrpcClient {
    /// The client of a route, where it is known whether its endpoint is one, which
    /// scheme it has, and whether the connection to it can be encrypted.
    pub fn from_parts(
        route: &ProxyRoute,
        timeout_ms: u64,
        accepted: bool,
        scheme: Option<Option<String>>,
        encryptable: bool,
    ) -> (r: Result<GrpcClient, ClientError>)
        ensures
            match grpc_client_of(route@, timeout_ms, accepted, scheme_in(scheme), encryptable) {
                Ok(v) => r matches Ok(c) && RouteClient::Grpc(c)@ == v,
                Err(e) => r matches Err(x) && x@ == e,
            },
    {
        let tls = match &scheme {
            Some(Some(scheme)) => same_text(scheme.as_str(), "https"),
            _ => false,
        };
        if !accepted || scheme.is_none() || (tls && !encryptable) {
            return Err(ClientError::GrpcEndpoint { route: route.name.clone() });
        }
        match make_metadata(&route.headers, &route.name) {
            Err(e) => Err(e),
            Ok(metadata) => Ok(
                GrpcClient { endpoint: route.endpoint.clone(), tls, metadata, timeout_ms },
            ),
        }
    }
}

fn build_grpc(route: &ProxyRoute, timeout_ms: u64) -> (r: Result<GrpcClient, ClientError>)
    ensures
        match grpc_client(route@, timeout_ms) {
            Ok(v) => r matches Ok(c) && RouteClient::Grpc(c)@ == v,
            Err(e) => r matches Err(x) && x@ == e,
        },
{
    let endpoint = route.endpoint.as_str();
    GrpcClient::from_parts(
        route,
        timeout_ms,
        endpoint_is_valid(endpoint),
        uri_scheme(endpoint),
        can_encrypt(endpoint),
    )
}

/// The URL of a path below an endpoint, or that there is none.
fn take_url(url: Option<UrlParts>, path: &str, route: &String) -> (r: Result<String, ClientError>)
    ensures
        match signal_url(parts_in(url), path@, route@) {
            Ok(u) => r matches Ok(x) && x@ == u,
            Err(e) => r matches Err(x) && x@ == e,
        },
{
    match url {
        Some(u) => Ok(u.text),
        None => Err(ClientError::SignalUrl { route: route.clone(), path: path.to_owned() }),
    }
}

impl HttpClient {
    /// The client of a route, where the URLs of its endpoint and of the paths below
    /// it are known.
    pub fn from_parts(
        route: &ProxyRoute,
        timeout_ms: u64,
        endpoint: Option<UrlParts>,
        logs: Option<UrlParts>,
        traces: Option<UrlParts>,
        metrics: Option<UrlParts>,
    ) -> (r: Result<HttpClient, ClientError>)
        ensures
            match http_client_of(
                route@,
                timeout_ms,
                parts_in(endpoint),
                parts_in(logs),
                parts_in(traces),
                parts_in(metrics),
            ) {
                Ok(v) => r matches Ok(c) && RouteClient::Http(c)@ == v,
                Err(e) => r matches Err(x) && x@ == e,
            },
    {
        let url = match endpoint {
            Some(u) => u,
            None => {
                return Err(
                    ClientError::HttpEndpoint {
                        route: route.name.clone(),
                        endpoint: route.endpoint.clone(),
                    },
                );
            },
        };
        if !(same_text(url.scheme.as_str(), "http") || same_text(url.scheme.as_str(), "https"))
            || !url.has_host {
            return Err(
                ClientError::NotAbsolute {
                    route: route.name.clone(),
                    endpoint: route.endpoint.clone(),
                },
            );
        }
        if url.has_query || url.has_fragment {
            return Err(
                ClientError::QueryOrFragment {
                    route: route.name.clone(),
                    endpoint: route.endpoint.clone(),
                },
            );
        }
        let logs_url = match take_url(logs, "/v1/logs", &route.name) {
            Ok(u) => u,
            Err(e) => {
                return Err(e);
            },
        };
        let traces_url = match take_url(traces, "/v1/traces", &route.name) {
            Ok(u) => u,
            Err(e) => {
                return Err(e);
            },
        };
        let metrics_url = match take_url(metrics, "/v1/metrics", &route.name) {
            Ok(u) => u,
            Err(e) => {
                return Err(e);
            },
        };
        match make_http_headers(&route.headers, &route.name) {
            Err(e) => Err(e),
            Ok(headers) => Ok(
                HttpClient { logs_url, traces_url, metrics_url, headers, timeout_ms },
            ),
        }
    }
}

fn build_http(route: &ProxyRoute, timeout_ms: u64) -> (r: Result<HttpClient, ClientError>)
    ensures
        match http_client(route@, timeout_ms) {
            Ok(v) => r matches Ok(c) && RouteClient::Http(c)@ == v,
            Err(e) => r matches Err(x) && x@ == e,
        },
{
    let base = trim_slashes(route.endpoint.as_str());
    HttpClient::from_parts(
        route,
        timeout_ms,
        parse_url(route.endpoint.as_str()),
        parse_below(&base, "/v1/logs"),
        parse_below(&base, "/v1/traces"),
        parse_below(&base, "/v1/metrics"),
    )
}

impl RouteClient {
    /// The client of a route, or why it has none.
    pub fn build(route: &ProxyRoute, timeout_ms: u64) -> (r: Result<RouteClient, ClientError>)
        ensures
            match client_for(route@, timeout_ms) {
                Ok(v) => r matches Ok(c) && c@ == v,
                Err(e) => r matches Err(x) && x@ == e,
            },
    {
        match route.transport {
            ProxyTransport::Grpc => match build_grpc(route, timeout_ms) {
                Ok(c) => Ok(RouteClient::Grpc(c)),
                Err(e) => Err(e),
            },
            ProxyTransport::HttpProtobuf => match build_http(route, timeout_ms) {
                Ok(c) => Ok(RouteClient::Http(c)),
                Err(e) => Err(e),
            },
        }
    }
}

impl HttpClient {
    /// The URL for a kind of telemetry.
    pub fn url(&self, signal: ProxySignal) -> (r: &String)
        ensures
            *r == (match signal {
                ProxySignal::Logs => self.logs_url,
                ProxySignal::Traces => self.traces_url,
                ProxySignal::Metrics => self.metrics_url,
            }),
    {
        match signal {
            ProxySignal::Logs => &self.logs_url,
            ProxySignal::Traces => &self.traces_url,
            ProxySignal::Metrics => &self.metrics_url,
        }
    }
}

/// What is sent over HTTP: where to, and the body.
pub struct HttpPost {
    pub url: String,
    pub body: Vec<u8>,
}

impl HttpClient {
    /// What is sent for a request with log records.
    pub fn post_logs(&self, req: &ExportLogsServiceRequest) -> (r: HttpPost)
        ensures
            r.url@ == self.logs_url@,
            r.body@ == logs_protobuf(*req),
    {
        HttpPost { url: self.logs_url.clone(), body: encode_logs(req) }
    }

    /// What is sent for a request with spans.
    pub fn post_traces(&self, req: &ExportTraceServiceRequest) -> (r: HttpPost)
        ensures
            r.url@ == self.traces_url@,
            r.body@ == traces_protobuf(*req),
    {
        HttpPost { url: self.traces_url.clone(), body: encode_traces(req) }
    }

    /// What is sent for a request with metrics.
    pub fn post_metrics(&self, req: &ExportMetricsServiceRequest) -> (r: HttpPost)
        ensures
            r.url@ == self.metrics_url@,
            r.body@ == metrics_protobuf(*req),
    {
        HttpPost { url: self.metrics_url.clone(), body: encode_metrics(req) }
    }
}

/// The first characters of a text.
pub open spec fn snippet(s: Seq<char>, n: int) -> Seq<char> {
    if s.len() <= n {
        s
    } else {
        s.take(n)
    }
}

/// What a refused HTTP request is reported as. `status_line` is the status as
/// it is shown, for the message; at most 400 characters of the reply are kept.
pub open spec fn upstream_message(
    status_line: Seq<char>,
    url: Seq<char>,
    body: Seq<char>,
) -> Seq<char> {
    "upstream returned HTTP "@ + status_line + " for "@ + url + ": "@ + snippet(body, 400)
}

/// Whether a request arrived: the status is one of success. Else what is
/// reported.
pub fn check_reply(status: u16, status_line: &str, url: &str, body: &str) -> (r: Result<
    (),
    String,
>)
    ensures
        200 <= status <= 299 ==> r is Ok,
        !(200 <= status <= 299) ==> (r matches Err(m) && m@ == upstream_message(
            status_line@,
            url@,
            body@,
        )),
{
    if 200 <= status && status <= 299 {
        return Ok(());
    }
    let mut m = String::new();
    push_text(&mut m, "upstream returned HTTP ");
    push_text(&mut m, status_line);
    push_text(&mut m, " for ");
    push_text(&mut m, url);
    push_text(&mut m, ": ");
    let chars = chars_of(body);
    let end: usize = if chars.len() <= 400 {
        chars.len()
    } else {
        400
    };
    let part = text_of(&copy_range(&chars, 0, end));
    assert(part@ =~= snippet(body@, 400));
    push_text(&mut m, part.as_str());
    assert(m@ =~= upstream_message(status_line@, url@, body@));
    Err(m)
}

/// Whether a reply says that part of a batch was refused.
pub fn is_partial_rejection(rejected: i64, message: &str) -> (r: bool)
    ensures
        r == (rejected != 0 || message@.len() > 0),
{
    rejected != 0 || !crate::text::is_empty(message)
}

/// Safe headers can always be sent over HTTP, unless a key is longer than 65535
/// characters.
pub proof fn law_safe_headers_can_be_sent(headers: Seq<(Seq<char>, Seq<char>)>, route: Seq<char>)
    requires
        forall|i: int|
            0 <= i < headers.len() ==> crate::cli::headers::safe_header(#[trigger] headers[i])
                && headers[i].0.len() <= 65535,
    ensures
        http_headers_for(headers, route) is Ok,
    decreases headers.len(),
{
    if headers.len() > 0 {
        assert forall|i: int|
            0 <= i < headers.drop_last().len() implies crate::cli::headers::safe_header(
            #[trigger] headers.drop_last()[i],
        ) && headers.drop_last()[i].0.len() <= 65535 by {
            assert(crate::cli::headers::safe_header(headers[i]));
        }
        law_safe_headers_can_be_sent(headers.drop_last(), route);
        let h = headers.last();
        assert(crate::cli::headers::safe_header(headers[headers.len() - 1]));
        assert forall|i: int| 0 <= i < h.1.len() implies (#[trigger] h.1[i] == '\t' || (
        h.1[i] as int >= 32 && h.1[i] as int != 127)) by {
            assert(crate::cli::headers::value_char(h.1[i]));
        }
    }
}

/// The slashes at the end of an endpoint make no difference.
pub proof fn law_slashes_at_the_end(s: Seq<char>)
    ensures
        without_slashes(s.push('/')) == without_slashes(s),
        s.len() > 0 && s.last() != '/' ==> without_slashes(s) == s,
{
    assert(s.push('/').drop_last() =~= s);
}

proof fn lemma_http_headers(headers: Seq<(Seq<char>, Seq<char>)>, route: Seq<char>)
    ensures
        http_headers_for(headers, route) matches Ok(sent) ==> sent == seq![
            ("content-type"@, "application/x-protobuf"@),
        ] + headers,
    decreases headers.len(),
{
    let first = seq![("content-type"@, "application/x-protobuf"@)];
    if headers.len() == 0 {
        assert(first + headers =~= first);
    } else {
        lemma_http_headers(headers.drop_last(), route);
        assert(first + headers =~= (first + headers.drop_last()).push(headers.last()));
    }
}

/// Over HTTP each kind of telemetry goes to its own path below the endpoint, as protobuf,
/// with the headers of the route behind the content type.
pub proof fn law_where_http_requests_go(r: RouteView, timeout_ms: u64)
    requires
        r.transport == ProxyTransport::HttpProtobuf,
        client_for(r, timeout_ms) is Ok,
    ensures
        ({
            let base = without_slashes(r.endpoint);
            let logs = url_of(base + "/v1/logs"@)->0;
            let traces = url_of(base + "/v1/traces"@)->0;
            let metrics = url_of(base + "/v1/metrics"@)->0;
            &&& url_of(base + "/v1/logs"@) is Some
            &&& url_of(base + "/v1/traces"@) is Some
            &&& url_of(base + "/v1/metrics"@) is Some
            &&& client_for(r, timeout_ms)->Ok_0 == ClientView::Http {
                logs_url: logs.4,
                traces_url: traces.4,
                metrics_url: metrics.4,
                headers: seq![("content-type"@, "application/x-protobuf"@)] + r.headers,
                timeout_ms,
            }
        }),
{
    lemma_http_headers(r.headers, r.name);
}

/// An HTTP endpoint has to be an absolute HTTP URL without query and fragment.
pub proof fn law_http_endpoints_are_absolute(r: RouteView, timeout_ms: u64)
    requires
        r.transport == ProxyTransport::HttpProtobuf,
    ensures
        url_of(r.endpoint) is None ==> client_for(r, timeout_ms) == Err::<
            ClientView,
            ClientRefusal,
        >(ClientRefusal::HttpEndpoint { route: r.name, endpoint: r.endpoint }),
        url_of(r.endpoint) is Some ==> {
            let u = url_of(r.endpoint)->0;
            let absolute = (u.0 == "http"@ || u.0 == "https"@) && u.1;
            &&& !absolute ==> client_for(r, timeout_ms) == Err::<ClientView, ClientRefusal>(
                ClientRefusal::NotAbsolute { route: r.name, endpoint: r.endpoint },
            )
            &&& absolute && (u.2 || u.3) ==> client_for(r, timeout_ms) == Err::<
                ClientView,
                ClientRefusal,
            >(ClientRefusal::QueryOrFragment { route: r.name, endpoint: r.endpoint })
        },
{
}

proof fn lemma_metadata(headers: Seq<(Seq<char>, Seq<char>)>, route: Seq<char>)
    ensures
        metadata_for(headers, route) matches Ok(sent) ==> sent.len() == headers.len() && forall|
            i: int,
        |
            0 <= i < sent.len() ==> (#[trigger] sent[i]) == (
                crate::text::ascii_lower(headers[i].0),
                headers[i].1,
            ),
    decreases headers.len(),
{
    if headers.len() > 0 {
        lemma_metadata(headers.drop_last(), route);
    }
}

/// Over gRPC a route is reached at its endpoint, encrypted if and only if that is an
/// `https` one, with its headers as metadata, their keys in lower case.
pub proof fn law_how_grpc_routes_are_reached(r: RouteView, timeout_ms: u64)
    requires
        r.transport == ProxyTransport::Grpc,
        client_for(r, timeout_ms) is Ok,
    ensures
        client_for(r, timeout_ms)->Ok_0 matches ClientView::Grpc {
            endpoint,
            tls,
            metadata,
            timeout_ms: t,
        } && endpoint == r.endpoint && t == timeout_ms && tls == (uri_scheme_of(r.endpoint) == Some(
            Some("https"@),
        )) && (tls ==> encrypts(r.endpoint)) && metadata.len() == r.headers.len() && forall|i: int|
            0 <= i < metadata.len() ==> (#[trigger] metadata[i]) == (
                crate::text::ascii_lower(r.headers[i].0),
                r.headers[i].1,
            ),
{
    lemma_metadata(r.headers, r.name);
}

/// A gRPC endpoint has to be a URI, and one that can be encrypted where it is an `https`
/// one.
pub proof fn law_grpc_endpoints_are_uris(r: RouteView, timeout_ms: u64)
    requires
        r.transport == ProxyTransport::Grpc,
        uri_scheme_of(r.endpoint) is None || (uri_scheme_of(r.endpoint) == Some(Some("https"@))
            && !encrypts(r.endpoint)),
    ensures
        client_for(r, timeout_ms) == Err::<ClientView, ClientRefusal>(
            ClientRefusal::GrpcEndpoint { route: r.name },
        ),
{
}

/// A header whose key is no header name, or whose value holds a control character, is
/// refused, and over gRPC also a key for binary metadata.
pub proof fn law_headers_that_cannot_be_sent(
    front: Seq<(Seq<char>, Seq<char>)>,
    key: Seq<char>,
    value: Seq<char>,
    route: Seq<char>,
)
    ensures
        http_headers_for(front, route) is Ok ==> {
            let r = http_headers_for(front.push((key, value)), route);
            &&& !is_header_name(key) ==> r == Err::<Seq<(Seq<char>, Seq<char>)>, ClientRefusal>(
                ClientRefusal::HeaderKey { route, key },
            )
            &&& is_header_name(key) && !is_header_value(value) ==> r == Err::<
                Seq<(Seq<char>, Seq<char>)>,
                ClientRefusal,
            >(ClientRefusal::HeaderValue { route, key })
        },
        metadata_for(front, route) is Ok ==> {
            let r = metadata_for(front.push((key, value)), route);
            let lower = crate::text::ascii_lower(key);
            &&& !is_header_name(lower) || is_binary_key(lower) ==> r == Err::<
                Seq<(Seq<char>, Seq<char>)>,
                ClientRefusal,
            >(ClientRefusal::MetadataKey { route, key })
            &&& is_header_name(lower) && !is_binary_key(lower) && !is_header_value(value) ==> r
                == Err::<Seq<(Seq<char>, Seq<char>)>, ClientRefusal>(
                ClientRefusal::MetadataValue { route, key },
            )
        },
{
    assert(front.push((key, value)).drop_last() =~= front);
}

/// A refused request is reported with the status, the URL and the first 400 characters of
/// the reply.
pub proof fn law_refused_requests_are_reported(
    status_line: Seq<char>,
    url: Seq<char>,
    body: Seq<char>,
)
    ensures
        body.len() <= 400 ==> upstream_message(status_line, url, body) == "upstream returned HTTP "@
            + status_line + " for "@ + url + ": "@ + body,
        body.len() > 400 ==> upstream_message(status_line, url, body) == "upstream returned HTTP "@
            + status_line + " for "@ + url + ": "@ + body.subrange(0, 400),
{
    assert(body.len() > 400 ==> body.take(400) =~= body.subrange(0, 400));
}

/// What each refusal of a route is reported as.
pub proof fn law_client_refusals_say_why(e: ClientRefusal)
    ensures
        e matches ClientRefusal::GrpcEndpoint { route }
            ==> client_message(e) == "build gRPC endpoint for route `"@
            + route + "`"@,
        e matches ClientRefusal::HttpEndpoint { route, endpoint }
            ==> client_message(e) == "parse HTTP endpoint `"@
            + endpoint + "` for route `"@ + route + "`"@,
        e matches ClientRefusal::NotAbsolute { route, endpoint }
            ==> client_message(e) == "HTTP endpoint `"@
            + endpoint + "` for route `"@ + route + "` must be an absolute HTTP(S) URL"@,
        e matches ClientRefusal::QueryOrFragment { route, endpoint }
            ==> client_message(e) == "HTTP endpoint `"@
            + endpoint + "` for route `"@ + route + "` must not contain a query or fragment"@,
        e matches ClientRefusal::SignalUrl { route, path }
            ==> client_message(e) == "build OTLP/HTTP URL `"@
            + path + "` for route `"@ + route + "`"@,
        e matches ClientRefusal::MetadataKey { route, key }
            ==> client_message(e) == "invalid metadata key `"@
            + key + "` for route `"@ + route + "`"@,
        e matches ClientRefusal::MetadataValue { route, key }
            ==> client_message(e) == "invalid metadata value for header `"@
            + key + "` on route `"@ + route + "`"@,
        e matches ClientRefusal::HeaderKey { route, key }
            ==> client_message(e) == "invalid HTTP header key `"@
            + key + "` on route `"@ + route + "`"@,
        e matches ClientRefusal::HeaderValue { route, key }
            ==> client_message(e) == "invalid HTTP header value for `"@
            + key + "` on route `"@ + route + "`"@,
{
}

/// A request arrived if the status begins with a two, and else what is reported says so.
pub proof fn law_which_replies_are_good(
    status: u16,
    status_line: &str,
    url: &str,
    body: &str,
    r: Result<(), String>,
)
    requires
        call_ensures(check_reply, (status, status_line, url, body), r),
    ensures
        r is Ok <==> status / 100 == 2,
        r matches Err(m) ==> m@ == upstream_message(status_line@, url@, body@),
{
}

/// A reply says that part of a batch was refused if it counts any, or gives a reason.
pub proof fn law_partial_rejections(rejected: i64, message: &str, r: bool)
    requires
        call_ensures(is_partial_rejection, (rejected, message), r),
    ensures
        !r <==> rejected == 0 && message@.len() == 0,
{
}

/// Each kind of telemetry is sent to its own URL, as protobuf.
pub proof fn law_what_is_posted(
    client: HttpClient,
    logs: ExportLogsServiceRequest,
    traces: ExportTraceServiceRequest,
    metrics: ExportMetricsServiceRequest,
    a: HttpPost,
    b: HttpPost,
    c: HttpPost,
)
    requires
        call_ensures(HttpClient::post_logs, (&client, &logs), a),
        call_ensures(HttpClient::post_traces, (&client, &traces), b),
        call_ensures(HttpClient::post_metrics, (&client, &metrics), c),
    ensures
        a.url@ == client.logs_url@ && a.body@ == logs_protobuf(logs),
        b.url@ == client.traces_url@ && b.body@ == traces_protobuf(traces),
        c.url@ == client.metrics_url@ && c.body@ == metrics_protobuf(metrics),
{
}

/// A header name has one to 65535 characters, each one of those of tokens, and a key that
/// ends with `-bin`, however it is capitalized, is one for binary metadata.
pub proof fn law_names_of_headers(s: Seq<char>, front: Seq<char>, end: Seq<char>)
    ensures
        is_header_name(s) <==> 1 <= s.len() <= 65535 && forall|i: int|
            0 <= i < s.len() ==> crate::cli::headers::token_char(#[trigger] s[i]),
        end.len() == 4 ==> (is_binary_key(front + end) <==> crate::text::ascii_lower(end)
            == "-bin"@),
        s.len() < 4 ==> !is_binary_key(s),
{
    if end.len() == 4 {
        let all = front + end;
        assert(crate::text::ascii_lower(all).skip(all.len() - 4) =~= crate::text::ascii_lower(end));
    }
}

} // verus!
