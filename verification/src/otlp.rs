//! Telemetry as the library reads it: the parts of OTLP export requests that
//! are aggregated, rendered or routed.

use crate::double::{Double, Usd};
use crate::number::{parse_integer, parse_usd};
use crate::text::{chars_of, same_text};
use vstd::prelude::*;

verus! {

/// The value of an attribute or a log body.
pub enum Value {
    Text(String),
    Bool(bool),
    Int(i64),
    Double(Double),
    Bytes(Vec<u8>),
    Array(Vec<AnyValue>),
    Kvlist(Vec<KeyValue>),
}

/// A value that may be absent.
pub struct AnyValue {
    pub value: Option<Value>,
}

/// An attribute.
pub struct KeyValue {
    pub key: String,
    pub value: Option<AnyValue>,
}

/// What emitted the telemetry.
pub struct Resource {
    pub attributes: Vec<KeyValue>,
}

/// A log record.
pub struct LogRecord {
    pub time_unix_nano: u64,
    pub severity_number: i32,
    pub severity_text: String,
    pub body: Option<AnyValue>,
    pub attributes: Vec<KeyValue>,
    pub event_name: String,
}

/// Log records of one instrumentation scope.
pub struct ScopeLogs {
    /// The name of the scope; empty where there is none.
    pub scope: String,
    pub log_records: Vec<LogRecord>,
}

/// Log records of one resource.
pub struct ResourceLogs {
    pub resource: Option<Resource>,
    pub scope_logs: Vec<ScopeLogs>,
}

/// A batch of log records.
pub struct LogsRequest {
    pub resource_logs: Vec<ResourceLogs>,
}

/// An event on a span.
pub struct Event {
    pub time_unix_nano: u64,
    pub name: String,
    pub attributes: Vec<KeyValue>,
}

/// A span.
pub struct Span {
    pub trace_id: Vec<u8>,
    pub span_id: Vec<u8>,
    pub name: String,
    pub start_time_unix_nano: u64,
    pub end_time_unix_nano: u64,
    pub attributes: Vec<KeyValue>,
    pub events: Vec<Event>,
    /// The status code; 0 where the span has no status.
    pub status_code: i32,
}

/// Spans of one instrumentation scope.
pub struct ScopeSpans {
    /// The name of the scope; empty where there is none.
    pub scope: String,
    pub spans: Vec<Span>,
}

/// Spans of one resource.
pub struct ResourceSpans {
    pub resource: Option<Resource>,
    pub scope_spans: Vec<ScopeSpans>,
}

/// A batch of spans.
pub struct TraceRequest {
    pub resource_spans: Vec<ResourceSpans>,
}

/// The value of a number data point.
pub enum NumberValue {
    AsDouble(Double),
    AsInt(i64),
}

/// A data point of a sum or a gauge.
pub struct NumberDataPoint {
    pub attributes: Vec<KeyValue>,
    pub value: Option<NumberValue>,
}

/// A data point of a histogram.
pub struct HistogramDataPoint {
    pub attributes: Vec<KeyValue>,
    pub count: u64,
    pub sum: Option<Double>,
}

/// A sum.
pub struct Sum {
    pub data_points: Vec<NumberDataPoint>,
    pub aggregation_temporality: i32,
}

/// A gauge.
pub struct Gauge {
    pub data_points: Vec<NumberDataPoint>,
}

/// A histogram.
pub struct Histogram {
    pub data_points: Vec<HistogramDataPoint>,
    pub aggregation_temporality: i32,
}

/// The data of a metric. Of exponential histograms and summaries only the
/// number of data points is kept.
pub enum MetricData {
    Gauge(Gauge),
    Sum(Sum),
    Histogram(Histogram),
    ExponentialHistogram(u64),
    Summary(u64),
}

/// A metric.
pub struct Metric {
    pub name: String,
    pub description: String,
    pub unit: String,
    pub data: Option<MetricData>,
}

/// Metrics of one instrumentation scope.
pub struct ScopeMetrics {
    /// The name of the scope; empty where there is none.
    pub scope: String,
    pub metrics: Vec<Metric>,
}

/// Metrics of one resource.
pub struct ResourceMetrics {
    pub resource: Option<Resource>,
    pub scope_metrics: Vec<ScopeMetrics>,
}

/// A batch of metrics.
pub struct MetricsRequest {
    pub resource_metrics: Vec<ResourceMetrics>,
}

/// The position of the first attribute with the given key, or the number of
/// attributes where there is none.
pub open spec fn attr_position(attrs: Seq<KeyValue>, key: Seq<char>, from: int) -> int
    decreases attrs.len() - from,
{
    if from >= attrs.len() {
        attrs.len() as int
    } else if attrs[from].key@ == key {
        from
    } else {
        attr_position(attrs, key, from + 1)
    }
}

/// The first attribute with the given key.
pub open spec fn attr_of(attrs: Seq<KeyValue>, key: Seq<char>) -> Option<KeyValue> {
    let i = attr_position(attrs, key, 0);
    if i < attrs.len() {
        Some(attrs[i])
    } else {
        None
    }
}

/// The value inside a value that may be absent.
pub open spec fn inner(v: Option<AnyValue>) -> Option<Value> {
    match v {
        Some(v) => v.value,
        None => None,
    }
}

/// The value of the first attribute with the given key.
pub open spec fn attr_value(attrs: Seq<KeyValue>, key: Seq<char>) -> Option<Value> {
    match attr_of(attrs, key) {
        Some(kv) => inner(kv.value),
        None => None,
    }
}

/// The text of a value, where it is text.
pub open spec fn text_value(v: Option<Value>) -> Option<Seq<char>> {
    match v {
        Some(Value::Text(s)) => Some(s@),
        _ => None,
    }
}

/// The text of the first attribute with the given key.
pub open spec fn text_attr(attrs: Seq<KeyValue>, key: Seq<char>) -> Option<Seq<char>> {
    text_value(attr_value(attrs, key))
}

/// The text of an attribute; empty where there is none.
pub open spec fn text_attr_or_empty(attrs: Seq<KeyValue>, key: Seq<char>) -> Seq<char> {
    match text_attr(attrs, key) {
        Some(s) => s,
        None => Seq::empty(),
    }
}

/// The integer that a value holds: an integer, a finite double within range,
/// or the notation of an integer.
pub open spec fn integer_value(v: Option<Value>) -> Option<i64> {
    match v {
        Some(Value::Int(i)) => Some(i),
        Some(Value::Double(d)) => crate::double::integer_of(d.bits),
        Some(Value::Text(s)) => crate::number::integer_in(s@),
        _ => None,
    }
}

/// What a counter takes of an attribute: its integer, or nothing where there
/// is none or it is negative.
pub open spec fn counter_attr(attrs: Seq<KeyValue>, key: Seq<char>) -> u64 {
    match integer_value(attr_value(attrs, key)) {
        Some(i) => if i > 0 {
            i as u64
        } else {
            0
        },
        None => 0,
    }
}

/// A whole number of dollars; nothing where it is negative.
pub open spec fn dollars_of(i: i64) -> Usd {
    Usd {
        units: if i > 0 {
            (i * crate::double::UNITS_PER_DOLLAR) as u128
        } else {
            0
        },
    }
}

/// The amount of dollars that an attribute holds; nothing where it holds none.
pub open spec fn usd_attr(attrs: Seq<KeyValue>, key: Seq<char>) -> Usd {
    match attr_value(attrs, key) {
        Some(Value::Double(d)) => crate::double::usd_of(d.bits),
        Some(Value::Int(i)) => dollars_of(i),
        Some(Value::Text(s)) => crate::number::usd_in(s@),
        _ => Usd { units: 0 },
    }
}

/// The name of the service that emitted the telemetry; empty where it is not
/// given as text.
pub open spec fn service_of(resource: Option<Resource>) -> Seq<char> {
    match resource {
        Some(r) => text_attr_or_empty(r.attributes@, "service.name"@),
        None => Seq::empty(),
    }
}

/// Finds the first attribute with the given key.
pub fn find_attr<'a>(attrs: &'a Vec<KeyValue>, key: &str) -> (r: Option<&'a KeyValue>)
    ensures
        r is Some <==> attr_of(attrs@, key@) is Some,
        r matches Some(kv) ==> *kv == attr_of(attrs@, key@)->0,
{
    let mut i: usize = 0;
    while i < attrs.len()
        invariant
            i <= attrs@.len(),
            attr_position(attrs@, key@, 0) == attr_position(attrs@, key@, i as int),
        decreases attrs@.len() - i,
    {
        if same_text(attrs[i].key.as_str(), key) {
            return Some(&attrs[i]);
        }
        i = i + 1;
    }
    None
}

/// The value of the first attribute with the given key.
pub fn find_value<'a>(attrs: &'a Vec<KeyValue>, key: &str) -> (r: Option<&'a Value>)
    ensures
        r is Some <==> attr_value(attrs@, key@) is Some,
        r matches Some(v) ==> *v == attr_value(attrs@, key@)->0,
{
    match find_attr(attrs, key) {
        Some(kv) => match &kv.value {
            Some(v) => match &v.value {
                Some(v) => Some(v),
                None => None,
            },
            None => None,
        },
        None => None,
    }
}

/// The text of the first attribute with the given key.
pub fn string_attr<'a>(attrs: &'a Vec<KeyValue>, key: &str) -> (r: Option<&'a String>)
    ensures
        r is Some <==> text_attr(attrs@, key@) is Some,
        r matches Some(s) ==> s@ == text_attr(attrs@, key@)->0,
{
    match find_value(attrs, key) {
        Some(Value::Text(s)) => Some(s),
        _ => None,
    }
}

/// A copy of the text of an attribute; empty where there is none.
pub fn string_attr_or_empty(attrs: &Vec<KeyValue>, key: &str) -> (r: String)
    ensures
        r@ == text_attr_or_empty(attrs@, key@),
{
    match string_attr(attrs, key) {
        Some(s) => s.clone(),
        None => {
            let empty = String::new();
            assert(empty@ =~= Seq::<char>::empty());
            empty
        },
    }
}

/// Whether an attribute holds the given text.
pub fn text_is(attrs: &Vec<KeyValue>, key: &str, text: &str) -> (r: bool)
    ensures
        r == (text_attr(attrs@, key@) == Some(text@)),
{
    match string_attr(attrs, key) {
        Some(s) => same_text(s.as_str(), text),
        None => false,
    }
}

/// The integer that an attribute holds.
pub fn int_attr(attrs: &Vec<KeyValue>, key: &str) -> (r: Option<i64>)
    ensures
        r == integer_value(attr_value(attrs@, key@)),
{
    match find_value(attrs, key) {
        Some(Value::Int(i)) => Some(*i),
        Some(Value::Double(d)) => d.integer(),
        Some(Value::Text(s)) => parse_integer(&chars_of(s.as_str())),
        _ => None,
    }
}

/// What a counter takes of an attribute.
pub fn u64_attr(attrs: &Vec<KeyValue>, key: &str) -> (r: u64)
    ensures
        r == counter_attr(attrs@, key@),
{
    match int_attr(attrs, key) {
        Some(i) => if i > 0 {
            i as u64
        } else {
            0
        },
        None => 0,
    }
}

/// A whole number of dollars; nothing where it is negative.
pub fn whole_dollars(i: i64) -> (r: Usd)
    ensures
        r == dollars_of(i),
{
    if i > 0 {
        Usd::dollars(i as u64)
    } else {
        Usd { units: 0 }
    }
}

/// The amount of dollars that an attribute holds.
pub fn cost_attr(attrs: &Vec<KeyValue>, key: &str) -> (r: Usd)
    ensures
        r == usd_attr(attrs@, key@),
{
    match find_value(attrs, key) {
        Some(Value::Double(d)) => d.usd(),
        Some(Value::Int(i)) => whole_dollars(*i),
        Some(Value::Text(s)) => parse_usd(&chars_of(s.as_str())),
        _ => Usd { units: 0 },
    }
}

/// The name of the service that emitted the telemetry.
pub fn service_name(resource: &Option<Resource>) -> (r: String)
    ensures
        r@ == service_of(*resource),
{
    match resource {
        Some(r) => string_attr_or_empty(&r.attributes, "service.name"),
        None => {
            let empty = String::new();
            assert(empty@ =~= Seq::<char>::empty());
            empty
        },
    }
}

proof fn lemma_attr_position(attrs: Seq<KeyValue>, key: Seq<char>, from: int)
    requires
        0 <= from <= attrs.len(),
    ensures
        from <= attr_position(attrs, key, from) <= attrs.len(),
        forall|j: int|
            from <= j < attr_position(attrs, key, from) ==> (#[trigger] attrs[j]).key@ != key,
        attr_position(attrs, key, from) < attrs.len() ==> attrs[attr_position(
            attrs,
            key,
            from,
        )].key@ == key,
    decreases attrs.len() - from,
{
    if from < attrs.len() && attrs[from].key@ != key {
        lemma_attr_position(attrs, key, from + 1);
    }
}

/// Of several attributes with one key the first is read, whatever stands after it,
/// and attributes with other keys do not matter.
pub proof fn law_the_first_attribute_is_read(
    front: Seq<KeyValue>,
    kv: KeyValue,
    back: Seq<KeyValue>,
)
    requires
        forall|i: int| 0 <= i < front.len() ==> (#[trigger] front[i]).key@ != kv.key@,
    ensures
        attr_of(front, kv.key@) is None,
        attr_of(front.push(kv) + back, kv.key@) == Some(kv),
        attr_value(front, kv.key@) is None,
        attr_value(front.push(kv) + back, kv.key@) == (match kv.value {
            Some(v) => v.value,
            None => None,
        }),
{
    let s = front.push(kv) + back;
    lemma_attr_position(front, kv.key@, 0);
    lemma_attr_position(s, kv.key@, 0);
    assert(s[front.len() as int] == kv);
    let i = attr_position(s, kv.key@, 0);
    if i < front.len() {
        assert(s[i] == front[i]);
    }
    let j = attr_position(front, kv.key@, 0);
    if j < front.len() {
        assert(front[j].key@ != kv.key@);
    }
}

/// Only a text value has a text.
pub proof fn law_only_text_is_text(attrs: Seq<KeyValue>, key: Seq<char>)
    ensures
        attr_value(attrs, key) matches Some(Value::Text(s)) ==> text_attr(attrs, key) == Some(s@)
            && text_attr_or_empty(attrs, key) == s@,
        !(attr_value(attrs, key) is Some && attr_value(attrs, key)->0 is Text) ==> text_attr(
            attrs,
            key,
        ) is None && text_attr_or_empty(attrs, key).len() == 0,
{
}

/// A counter takes the integer of an attribute, be it given as an integer, as a
/// double or as text; a negative one counts nothing, and so does any other value.
pub proof fn law_what_counters_take(attrs: Seq<KeyValue>, key: Seq<char>)
    ensures
        attr_value(attrs, key) matches Some(Value::Int(i)) ==> counter_attr(attrs, key) == (if i
            > 0 {
            i as int
        } else {
            0
        }),
        attr_value(attrs, key) matches Some(Value::Double(d)) ==> counter_attr(attrs, key) == (
        match crate::double::integer_of(d.bits) {
            Some(i) if i > 0 => i as int,
            _ => 0,
        }),
        attr_value(attrs, key) matches Some(Value::Text(s)) ==> counter_attr(attrs, key) == (
        match crate::number::integer_in(s@) {
            Some(i) if i > 0 => i as int,
            _ => 0,
        }),
        attr_value(attrs, key) is None ==> counter_attr(attrs, key) == 0,
        attr_value(attrs, key) matches Some(Value::Bool(_)) ==> counter_attr(attrs, key) == 0,
        attr_value(attrs, key) matches Some(Value::Bytes(_)) ==> counter_attr(attrs, key) == 0,
        attr_value(attrs, key) matches Some(Value::Array(_)) ==> counter_attr(attrs, key) == 0,
        attr_value(attrs, key) matches Some(Value::Kvlist(_)) ==> counter_attr(attrs, key) == 0,
{
}

/// A cost takes the dollars of an attribute, be they given as an integer, as a double
/// or as text; a negative integer costs nothing, and so does any other value.
pub proof fn law_what_costs_take(attrs: Seq<KeyValue>, key: Seq<char>)
    ensures
        attr_value(attrs, key) matches Some(Value::Int(i)) ==> usd_attr(attrs, key).units == (if i
            > 0 {
            i * 0x1_0000_0000_0000_0000
        } else {
            0
        }),
        attr_value(attrs, key) matches Some(Value::Double(d)) ==> usd_attr(attrs, key)
            == crate::double::usd_of(d.bits),
        attr_value(attrs, key) matches Some(Value::Text(s)) ==> usd_attr(attrs, key)
            == crate::number::usd_in(s@),
        attr_value(attrs, key) is None ==> usd_attr(attrs, key).units == 0,
        attr_value(attrs, key) matches Some(Value::Bool(_)) ==> usd_attr(attrs, key).units == 0,
{
    if let Some(Value::Int(i)) = attr_value(attrs, key) {
        if i > 0 {
            assert(i * 0x1_0000_0000_0000_0000 <= u128::MAX) by (nonlinear_arith)
                requires
                    0 < i <= 0x7fff_ffff_ffff_ffff,
            ;
        }
    }
}

/// The service of telemetry is the text of the attribute `service.name` of its
/// resource.
pub proof fn law_service_names(resource: Option<Resource>)
    ensures
        resource is None ==> service_of(resource).len() == 0,
        resource matches Some(r) ==> service_of(resource) == text_attr_or_empty(
            r.attributes@,
            "service.name"@,
        ),
{
}

} // verus!
