//! Telemetry and totals as text for a reader.
//!
//! Whatever an exporter sends is shown with its control characters escaped, so
//! that nothing in a payload acts on the terminal.

pub mod color;
pub mod laws;
pub mod number;
pub mod shown;

use crate::aggregator::{AgentStats, BucketStats, UsageSnapshot};
use crate::clock::rfc3339;
use crate::otlp::{
    find_attr, AnyValue, Event, HistogramDataPoint, KeyValue, LogRecord, LogsRequest, Metric,
    MetricData, MetricsRequest, NumberDataPoint, NumberValue, Resource, ResourceLogs,
    ResourceMetrics, ResourceSpans, ScopeLogs, ScopeMetrics, ScopeSpans, Span, TraceRequest, Value,
};
use crate::proto::severity_number;
use crate::table::Row;
use crate::text::{
    chars_of, clean, decimal_text, glue, hex, is_empty, join, push_text, same_text,
    signed_decimal_text, to_uppercase,
};
use number::{format_cost, format_duration_ns};
use vstd::prelude::*;

verus! {

/// A batch of telemetry.
pub enum TelemetryRecord {
    Traces(TraceRequest),
    Metrics(MetricsRequest),
    Logs(LogsRequest),
}

/// A colour.
#[derive(Clone, Copy, Debug, PartialEq, Eq, Structural)]
pub enum Style {
    Dim,
    Bold,
    Red,
    Green,
    Yellow,
    Blue,
    Magenta,
    Cyan,
}

/// The escape sequence that turns a style on.
pub open spec fn style_code(s: Style) -> Seq<char> {
    match s {
        Style::Dim => "\u{1b}[2m"@,
        Style::Bold => "\u{1b}[1m"@,
        Style::Red => "\u{1b}[31m"@,
        Style::Green => "\u{1b}[32m"@,
        Style::Yellow => "\u{1b}[33m"@,
        Style::Blue => "\u{1b}[34m"@,
        Style::Magenta => "\u{1b}[35m"@,
        Style::Cyan => "\u{1b}[36m"@,
    }
}

/// A text in a style, where output is coloured.
pub open spec fn painted(color: bool, s: Style, text: Seq<char>) -> Seq<char> {
    if color {
        style_code(s) + text + "\u{1b}[0m"@
    } else {
        text
    }
}

/// Paints text where output is coloured.
pub struct Painter {
    pub color: bool,
}

impl Painter {
    /// The text in a style.
    pub fn paint(&self, style: Style, text: &str) -> (r: String)
        ensures
            r@ == painted(self.color, style, text@),
    {
        if self.color {
            let mut out = String::new();
            match style {
                Style::Dim => push_text(&mut out, "\u{1b}[2m"),
                Style::Bold => push_text(&mut out, "\u{1b}[1m"),
                Style::Red => push_text(&mut out, "\u{1b}[31m"),
                Style::Green => push_text(&mut out, "\u{1b}[32m"),
                Style::Yellow => push_text(&mut out, "\u{1b}[33m"),
                Style::Blue => push_text(&mut out, "\u{1b}[34m"),
                Style::Magenta => push_text(&mut out, "\u{1b}[35m"),
                Style::Cyan => push_text(&mut out, "\u{1b}[36m"),
            }
            push_text(&mut out, text);
            push_text(&mut out, "\u{1b}[0m");
            assert(out@ =~= painted(self.color, style, text@));
            out
        } else {
            text.to_owned()
        }
    }

    /// The text, dim.
    pub fn dim(&self, text: &str) -> (r: String)
        ensures
            r@ == painted(self.color, Style::Dim, text@),
    {
        self.paint(Style::Dim, text)
    }

    /// The text, bold.
    pub fn bold(&self, text: &str) -> (r: String)
        ensures
            r@ == painted(self.color, Style::Bold, text@),
    {
        self.paint(Style::Bold, text)
    }
}

// ---------------------------------------------------------------------------
// Values
// ---------------------------------------------------------------------------

/// Whether a text has to be quoted to stand in a list of attributes.
pub open spec fn needs_quotes(s: Seq<char>) -> bool {
    exists|i: int| 0 <= i < s.len() && (#[trigger] s[i] == ' ' || s[i] == '"' || s[i] == '=')
}

/// A text with backslashes and double quotes escaped.
pub open spec fn slashed(s: Seq<char>) -> Seq<char>
    decreases s.len(),
{
    if s.len() == 0 {
        Seq::empty()
    } else if s.last() == '\\' || s.last() == '"' {
        slashed(s.drop_last()).push('\\').push(s.last())
    } else {
        slashed(s.drop_last()).push(s.last())
    }
}

/// A text, in quotes where it needs them.
pub open spec fn quoted(s: Seq<char>) -> Seq<char> {
    if needs_quotes(s) {
        seq!['"'] + slashed(s) + seq!['"']
    } else {
        s
    }
}

/// A value as it is shown.
pub open spec fn value_text(v: AnyValue) -> Seq<char>
    decreases v, 0nat,
{
    match v.value {
        Some(Value::Text(s)) => s@,
        Some(Value::Bool(b)) => if b {
            "true"@
        } else {
            "false"@
        },
        Some(Value::Int(i)) => crate::text::signed_decimal(i as int),
        Some(Value::Double(d)) => d.text@,
        Some(Value::Bytes(b)) => "0x"@ + crate::text::hex_of(b@),
        Some(Value::Array(a)) => "["@ + crate::text::joined(value_texts(a@, a@.len()), ", "@)
            + "]"@,
        Some(Value::Kvlist(kv)) => "{"@ + crate::text::joined(attr_texts(kv@, kv@.len()), ", "@)
            + "}"@,
        None => Seq::empty(),
    }
}

/// The first `n` values as they are shown.
pub open spec fn value_texts(s: Seq<AnyValue>, n: nat) -> Seq<Seq<char>>
    decreases s, n,
{
    if n == 0 || n > s.len() {
        Seq::empty()
    } else {
        value_texts(s, (n - 1) as nat).push(value_text(s[n - 1]))
    }
}

/// The first `n` attributes as they are shown.
pub open spec fn attr_texts(s: Seq<KeyValue>, n: nat) -> Seq<Seq<char>>
    decreases s, n,
{
    if n == 0 || n > s.len() {
        Seq::empty()
    } else {
        let kv = s[n - 1];
        let value = match kv.value {
            Some(v) => value_text(v),
            None => Seq::empty(),
        };
        attr_texts(s, (n - 1) as nat).push(kv.key@ + "="@ + quoted(value))
    }
}

/// A list of attributes as it is shown.
pub open spec fn attrs_text(s: Seq<KeyValue>) -> Seq<char> {
    "{"@ + crate::text::joined(attr_texts(s, s.len()), ", "@) + "}"@
}

/// A text, in quotes where it needs them.
pub fn quote_for_pretty(s: &str) -> (r: String)
    ensures
        r@ == quoted(s@),
{
    let chars = chars_of(s);
    let mut special = false;
    for i in 0..chars.len()
        invariant
            chars@ == s@,
            special == exists|j: int|
                0 <= j < i && (#[trigger] s@[j] == ' ' || s@[j] == '"' || s@[j] == '='),
    {
        if chars[i] == ' ' || chars[i] == '"' || chars[i] == '=' {
            assert(s@[i as int] == ' ' || s@[i as int] == '"' || s@[i as int] == '=');
            special = true;
        }
    }
    if !special {
        return s.to_owned();
    }
    let mut out = String::new();
    out.push('"');
    assert(out@ =~= seq!['"'] + slashed(chars@.take(0)));
    for i in 0..chars.len()
        invariant
            chars@ == s@,
            out@ == seq!['"'] + slashed(chars@.take(i as int)),
    {
        assert(chars@.take(i + 1).drop_last() =~= chars@.take(i as int));
        if chars[i] == '\\' || chars[i] == '"' {
            out.push('\\');
        }
        out.push(chars[i]);
        assert(out@ =~= seq!['"'] + slashed(chars@.take(i + 1)));
    }
    assert(chars@.take(chars@.len() as int) =~= chars@);
    out.push('"');
    assert(out@ =~= quoted(s@));
    out
}

/// A value as it is shown.
pub fn any_value_to_string(v: &AnyValue) -> (r: String)
    ensures
        r@ == value_text(*v),
    decreases v, 0nat,
{
    match &v.value {
        Some(Value::Text(s)) => s.clone(),
        Some(Value::Bool(b)) => if *b {
            "true".to_owned()
        } else {
            "false".to_owned()
        },
        Some(Value::Int(i)) => signed_decimal_text(*i),
        Some(Value::Double(d)) => d.text.clone(),
        Some(Value::Bytes(b)) => {
            let mut out = String::new();
            push_text(&mut out, "0x");
            push_text(&mut out, hex(b).as_str());
            assert(out@ =~= value_text(*v));
            out
        },
        Some(Value::Array(a)) => {
            let parts = values_to_strings(a);
            let mut out = String::new();
            push_text(&mut out, "[");
            push_text(&mut out, join(&parts, ", ").as_str());
            push_text(&mut out, "]");
            assert(out@ =~= value_text(*v));
            out
        },
        Some(Value::Kvlist(kv)) => {
            let r = format_attrs(kv);
            assert(r@ =~= value_text(*v));
            r
        },
        None => {
            let empty = String::new();
            assert(empty@ =~= Seq::<char>::empty());
            empty
        },
    }
}

/// Values as they are shown.
fn values_to_strings(a: &Vec<AnyValue>) -> (r: Vec<String>)
    ensures
        crate::text::texts(r@) == value_texts(a@, a@.len()),
    decreases a, 1nat,
{
    let mut parts: Vec<String> = Vec::new();
    assert(crate::text::texts(parts@) =~= value_texts(a@, 0));
    for i in 0..a.len()
        invariant
            crate::text::texts(parts@) == value_texts(a@, i as nat),
    {
        let ghost before = crate::text::texts(parts@);
        let part = any_value_to_string(&a[i]);
        parts.push(part);
        assert(crate::text::texts(parts@) =~= before.push(part@));
    }
    parts
}

/// A list of attributes as it is shown.
pub fn format_attrs(attrs: &Vec<KeyValue>) -> (r: String)
    ensures
        r@ == attrs_text(attrs@),
    decreases attrs, 1nat,
{
    let mut parts: Vec<String> = Vec::new();
    assert(crate::text::texts(parts@) =~= attr_texts(attrs@, 0));
    for i in 0..attrs.len()
        invariant
            crate::text::texts(parts@) == attr_texts(attrs@, i as nat),
    {
        let ghost before = crate::text::texts(parts@);
        let kv = &attrs[i];
        let value = match &kv.value {
            Some(v) => any_value_to_string(v),
            None => {
                let empty = String::new();
                assert(empty@ =~= Seq::<char>::empty());
                empty
            },
        };
        let mut part = String::new();
        push_text(&mut part, kv.key.as_str());
        push_text(&mut part, "=");
        push_text(&mut part, quote_for_pretty(value.as_str()).as_str());
        assert(part@ =~= kv.key@ + "="@ + quoted(value@));
        parts.push(part);
        assert(crate::text::texts(parts@) =~= before.push(part@));
    }
    let mut out = String::new();
    push_text(&mut out, "{");
    push_text(&mut out, join(&parts, ", ").as_str());
    push_text(&mut out, "}");
    assert(out@ =~= attrs_text(attrs@));
    out
}

// ---------------------------------------------------------------------------
// Parts of a line
// ---------------------------------------------------------------------------

/// A time as it is shown.
pub open spec fn time_text(nanos: u64) -> Seq<char> {
    if nanos == 0 {
        "-"@
    } else {
        match crate::clock::rfc3339_of(nanos as int) {
            Some(t) => crate::text::cleaned(t),
            None => crate::text::decimal(nanos as nat),
        }
    }
}

/// The name of a service as it is shown.
pub open spec fn service_text(resource: Option<Resource>) -> Seq<char> {
    match resource {
        Some(r) => match crate::otlp::attr_of(r.attributes@, "service.name"@) {
            Some(kv) => match kv.value {
                Some(v) => value_text(v),
                None => "unknown"@,
            },
            None => "unknown"@,
        },
        None => "unknown"@,
    }
}

/// An identifier as it is shown.
pub open spec fn id_text(bytes: Seq<u8>) -> Seq<char> {
    if bytes.len() == 0 {
        "-"@
    } else {
        crate::text::hex_of(bytes)
    }
}

/// A time as it is shown.
pub fn format_unix_nanos(nanos: u64) -> (r: String)
    ensures
        r@ == time_text(nanos),
{
    if nanos == 0 {
        return "-".to_owned();
    }
    match rfc3339(nanos as i128) {
        Some(t) => clean(t.as_str()),
        None => decimal_text(nanos as u128),
    }
}

/// The name of a service as it is shown.
pub fn service_label(resource: &Option<Resource>) -> (r: String)
    ensures
        r@ == service_text(*resource),
{
    match resource {
        Some(r) => match find_attr(&r.attributes, "service.name") {
            Some(kv) => match &kv.value {
                Some(v) => any_value_to_string(v),
                None => "unknown".to_owned(),
            },
            None => "unknown".to_owned(),
        },
        None => "unknown".to_owned(),
    }
}

/// An identifier as it is shown.
pub fn hex_id(bytes: &Vec<u8>) -> (r: String)
    ensures
        r@ == id_text(bytes@),
{
    if bytes.len() == 0 {
        "-".to_owned()
    } else {
        hex(bytes)
    }
}

/// The lines below an item: its attributes, where it has any.
pub open spec fn attrs_line(attrs: Seq<KeyValue>, color: bool) -> Seq<char> {
    if attrs.len() == 0 {
        Seq::empty()
    } else {
        crate::text::glued(
            seq![
                "        "@,
                painted(color, Style::Dim, "attrs:"@),
                " "@,
                crate::text::cleaned(attrs_text(attrs)),
                "\n"@,
            ],
        )
    }
}

fn render_attrs(p: &Painter, attrs: &Vec<KeyValue>) -> (r: String)
    ensures
        r@ == attrs_line(attrs@, p.color),
{
    if attrs.len() == 0 {
        let empty = String::new();
        assert(empty@ =~= Seq::<char>::empty());
        return empty;
    }
    let parts: Vec<String> = vec![
        "        ".to_owned(),
        p.dim("attrs:"),
        " ".to_owned(),
        clean(format_attrs(attrs).as_str()),
        "\n".to_owned(),
    ];
    assert(crate::text::texts(parts@) =~= seq![
        "        "@,
        painted(p.color, Style::Dim, "attrs:"@),
        " "@,
        crate::text::cleaned(attrs_text(attrs@)),
        "\n"@,
    ]);
    glue(&parts)
}

// ---------------------------------------------------------------------------
// Spans
// ---------------------------------------------------------------------------

/// The status of a span as it is shown.
pub open spec fn status_text(code: i32, color: bool) -> Seq<char> {
    if code == 1 {
        painted(color, Style::Green, "OK"@)
    } else if code == 2 {
        painted(color, Style::Red, "ERROR"@)
    } else {
        painted(color, Style::Dim, "UNSET"@)
    }
}

/// How long a span took.
pub open spec fn span_duration(span: Span) -> nat {
    if span.end_time_unix_nano >= span.start_time_unix_nano {
        (span.end_time_unix_nano - span.start_time_unix_nano) as nat
    } else {
        0
    }
}

/// The line of a span.
pub open spec fn span_line(span: Span, service: Seq<char>, scope: Seq<char>, color: bool) -> Seq<
    char,
> {
    crate::text::glued(
        seq![
            painted(color, Style::Magenta, "[trace]"@),
            " "@,
            painted(color, Style::Dim, time_text(span.start_time_unix_nano)),
            " service="@,
            painted(color, Style::Bold, crate::text::cleaned(service)),
            " scope="@,
            crate::text::cleaned(scope),
            " span="@,
            painted(color, Style::Bold, crate::text::cleaned(span.name@)),
            " dur="@,
            number::duration_text(span_duration(span)),
            " status="@,
            status_text(span.status_code, color),
            " trace="@,
            id_text(span.trace_id@),
            " span_id="@,
            id_text(span.span_id@),
            "\n"@,
        ],
    )
}

/// The line of a span event.
pub open spec fn event_line(ev: Event, color: bool) -> Seq<char> {
    crate::text::glued(
        seq![
            "        "@,
            painted(color, Style::Dim, "event @"@ + time_text(ev.time_unix_nano)),
            " "@,
            painted(color, Style::Bold, crate::text::cleaned(ev.name@)),
            " "@,
            crate::text::cleaned(attrs_text(ev.attributes@)),
            "\n"@,
        ],
    )
}

/// The lines of span events.
pub open spec fn event_lines(events: Seq<Event>, color: bool) -> Seq<char>
    decreases events.len(),
{
    if events.len() == 0 {
        Seq::empty()
    } else {
        event_lines(events.drop_last(), color) + event_line(events.last(), color)
    }
}

/// The lines of a span, its attributes and its events.
pub open spec fn span_lines(span: Span, service: Seq<char>, scope: Seq<char>, color: bool) -> Seq<
    char,
> {
    span_line(span, service, scope, color) + attrs_line(span.attributes@, color) + event_lines(
        span.events@,
        color,
    )
}

/// The lines of spans.
pub open spec fn spans_text(
    spans: Seq<Span>,
    service: Seq<char>,
    scope: Seq<char>,
    color: bool,
) -> Seq<char>
    decreases spans.len(),
{
    if spans.len() == 0 {
        Seq::empty()
    } else {
        spans_text(spans.drop_last(), service, scope, color) + span_lines(
            spans.last(),
            service,
            scope,
            color,
        )
    }
}

/// The lines of the spans of several scopes.
pub open spec fn scope_spans_text(scopes: Seq<ScopeSpans>, service: Seq<char>, color: bool) -> Seq<
    char,
>
    decreases scopes.len(),
{
    if scopes.len() == 0 {
        Seq::empty()
    } else {
        scope_spans_text(scopes.drop_last(), service, color) + spans_text(
            scopes.last().spans@,
            service,
            scopes.last().scope@,
            color,
        )
    }
}

/// The lines of the spans of several resources.
pub open spec fn traces_text(resources: Seq<ResourceSpans>, color: bool) -> Seq<char>
    decreases resources.len(),
{
    if resources.len() == 0 {
        Seq::empty()
    } else {
        let r = resources.last();
        traces_text(resources.drop_last(), color) + scope_spans_text(
            r.scope_spans@,
            service_text(r.resource),
            color,
        )
    }
}

fn render_status(p: &Painter, code: i32) -> (r: String)
    ensures
        r@ == status_text(code, p.color),
{
    if code == 1 {
        p.paint(Style::Green, "OK")
    } else if code == 2 {
        p.paint(Style::Red, "ERROR")
    } else {
        p.dim("UNSET")
    }
}

fn render_event(p: &Painter, ev: &Event) -> (r: String)
    ensures
        r@ == event_line(*ev, p.color),
{
    let mut at = String::new();
    push_text(&mut at, "event @");
    push_text(&mut at, format_unix_nanos(ev.time_unix_nano).as_str());
    assert(at@ =~= "event @"@ + time_text(ev.time_unix_nano));
    let parts: Vec<String> = vec![
        "        ".to_owned(),
        p.dim(at.as_str()),
        " ".to_owned(),
        p.bold(clean(ev.name.as_str()).as_str()),
        " ".to_owned(),
        clean(format_attrs(&ev.attributes).as_str()),
        "\n".to_owned(),
    ];
    assert(crate::text::texts(parts@) =~= seq![
        "        "@,
        painted(p.color, Style::Dim, "event @"@ + time_text(ev.time_unix_nano)),
        " "@,
        painted(p.color, Style::Bold, crate::text::cleaned(ev.name@)),
        " "@,
        crate::text::cleaned(attrs_text(ev.attributes@)),
        "\n"@,
    ]);
    glue(&parts)
}

fn render_span_line(p: &Painter, span: &Span, service: &String, scope: &String) -> (r: String)
    ensures
        r@ == span_line(*span, service@, scope@, p.color),
{
    let duration: u64 = if span.end_time_unix_nano >= span.start_time_unix_nano {
        span.end_time_unix_nano - span.start_time_unix_nano
    } else {
        0
    };
    let parts: Vec<String> = vec![
        p.paint(Style::Magenta, "[trace]"),
        " ".to_owned(),
        p.dim(format_unix_nanos(span.start_time_unix_nano).as_str()),
        " service=".to_owned(),
        p.bold(clean(service.as_str()).as_str()),
        " scope=".to_owned(),
        clean(scope.as_str()),
        " span=".to_owned(),
        p.bold(clean(span.name.as_str()).as_str()),
        " dur=".to_owned(),
        format_duration_ns(duration),
        " status=".to_owned(),
        render_status(p, span.status_code),
        " trace=".to_owned(),
        hex_id(&span.trace_id),
        " span_id=".to_owned(),
        hex_id(&span.span_id),
        "\n".to_owned(),
    ];
    let ghost color = p.color;
    assert(crate::text::texts(parts@) =~= seq![
        painted(color, Style::Magenta, "[trace]"@),
        " "@,
        painted(color, Style::Dim, time_text(span.start_time_unix_nano)),
        " service="@,
        painted(color, Style::Bold, crate::text::cleaned(service@)),
        " scope="@,
        crate::text::cleaned(scope@),
        " span="@,
        painted(color, Style::Bold, crate::text::cleaned(span.name@)),
        " dur="@,
        number::duration_text(span_duration(*span)),
        " status="@,
        status_text(span.status_code, color),
        " trace="@,
        id_text(span.trace_id@),
        " span_id="@,
        id_text(span.span_id@),
        "\n"@,
    ]);
    glue(&parts)
}

fn render_span(out: &mut String, p: &Painter, span: &Span, service: &String, scope: &String)
    ensures
        final(out)@ == old(out)@ + span_lines(*span, service@, scope@, p.color),
{
    let ghost start = out@;
    push_text(out, render_span_line(p, span, service, scope).as_str());
    push_text(out, render_attrs(p, &span.attributes).as_str());
    let ghost head = span_line(*span, service@, scope@, p.color) + attrs_line(
        span.attributes@,
        p.color,
    );
    let events = &span.events;
    assert(out@ =~= start + head + event_lines(events@.take(0), p.color));
    for i in 0..events.len()
        invariant
            out@ == start + head + event_lines(events@.take(i as int), p.color),
    {
        assert(events@.take(i + 1).drop_last() =~= events@.take(i as int));
        push_text(out, render_event(p, &events[i]).as_str());
        assert(out@ =~= start + head + event_lines(events@.take(i + 1), p.color));
    }
    assert(events@.take(events@.len() as int) =~= events@);
    assert(out@ =~= start + span_lines(*span, service@, scope@, p.color));
}

/// Appends the lines of spans.
pub fn render_traces(out: &mut String, p: &Painter, req: &TraceRequest)
    ensures
        final(out)@ == old(out)@ + traces_text(req.resource_spans@, p.color),
{
    let ghost start = out@;
    let resources = &req.resource_spans;
    assert(out@ =~= start + traces_text(resources@.take(0), p.color));
    for i in 0..resources.len()
        invariant
            resources == &req.resource_spans,
            out@ == start + traces_text(resources@.take(i as int), p.color),
    {
        assert(resources@.take(i + 1).drop_last() =~= resources@.take(i as int));
        let service = service_label(&resources[i].resource);
        let scopes = &resources[i].scope_spans;
        let ghost before = out@;
        assert(out@ =~= before + scope_spans_text(scopes@.take(0), service@, p.color));
        for j in 0..scopes.len()
            invariant
                out@ == before + scope_spans_text(scopes@.take(j as int), service@, p.color),
        {
            assert(scopes@.take(j + 1).drop_last() =~= scopes@.take(j as int));
            let spans = &scopes[j].spans;
            let ghost above = out@;
            let ghost scope = scopes@[j as int].scope@;
            assert(out@ =~= above + spans_text(spans@.take(0), service@, scope, p.color));
            for k in 0..spans.len()
                invariant
                    j < scopes@.len(),
                    scope == scopes@[j as int].scope@,
                    out@ == above + spans_text(spans@.take(k as int), service@, scope, p.color),
            {
                assert(spans@.take(k + 1).drop_last() =~= spans@.take(k as int));
                render_span(out, p, &spans[k], &service, &scopes[j].scope);
                assert(out@ =~= above + spans_text(spans@.take(k + 1), service@, scope, p.color));
            }
            assert(spans@.take(spans@.len() as int) =~= spans@);
            assert(out@ =~= before + scope_spans_text(scopes@.take(j + 1), service@, p.color));
        }
        assert(scopes@.take(scopes@.len() as int) =~= scopes@);
        assert(out@ =~= start + traces_text(resources@.take(i + 1), p.color));
    }
    assert(resources@.take(resources@.len() as int) =~= resources@);
}

// ---------------------------------------------------------------------------
// Metrics
// ---------------------------------------------------------------------------

/// A number data point as it is shown.
pub open spec fn number_point_text(dp: NumberDataPoint) -> Seq<char> {
    let v = match dp.value {
        Some(NumberValue::AsDouble(d)) => d.text@,
        Some(NumberValue::AsInt(i)) => crate::text::signed_decimal(i as int),
        None => "?"@,
    };
    if dp.attributes@.len() == 0 {
        v
    } else {
        v + " "@ + attrs_text(dp.attributes@)
    }
}

/// A histogram data point as it is shown.
pub open spec fn histogram_point_text(dp: HistogramDataPoint) -> Seq<char> {
    "count="@ + crate::text::decimal(dp.count as nat) + " sum="@ + (match dp.sum {
        Some(d) => d.text@,
        None => Seq::empty(),
    })
}

/// Number data points as they are shown.
pub open spec fn number_point_texts(s: Seq<NumberDataPoint>) -> Seq<Seq<char>> {
    Seq::new(s.len(), |i: int| number_point_text(s[i]))
}

/// Histogram data points as they are shown.
pub open spec fn histogram_point_texts(s: Seq<HistogramDataPoint>) -> Seq<Seq<char>> {
    Seq::new(s.len(), |i: int| histogram_point_text(s[i]))
}

/// The data of a metric as it is shown.
pub open spec fn data_text(data: Option<MetricData>) -> Seq<char> {
    match data {
        Some(MetricData::Sum(sum)) => "sum=["@ + crate::text::joined(
            number_point_texts(sum.data_points@),
            ", "@,
        ) + "]"@,
        Some(MetricData::Gauge(gauge)) => "gauge=["@ + crate::text::joined(
            number_point_texts(gauge.data_points@),
            ", "@,
        ) + "]"@,
        Some(MetricData::Histogram(hist)) => "hist=["@ + crate::text::joined(
            histogram_point_texts(hist.data_points@),
            ", "@,
        ) + "]"@,
        Some(MetricData::ExponentialHistogram(n)) => "exp_hist=points="@ + crate::text::decimal(
            n as nat,
        ),
        Some(MetricData::Summary(n)) => "summary=points="@ + crate::text::decimal(n as nat),
        None => "no_data"@,
    }
}

/// The unit of a metric as it is shown.
pub open spec fn unit_text(unit: Seq<char>) -> Seq<char> {
    if unit.len() == 0 {
        Seq::empty()
    } else {
        " unit="@ + crate::text::cleaned(unit)
    }
}

/// The description of a metric as it is shown.
pub open spec fn description_text(description: Seq<char>, color: bool) -> Seq<char> {
    if description.len() == 0 {
        Seq::empty()
    } else {
        painted(color, Style::Dim, "("@ + crate::text::cleaned(description) + ")"@)
    }
}

/// The line of a metric.
pub open spec fn metric_line(m: Metric, service: Seq<char>, scope: Seq<char>, color: bool) -> Seq<
    char,
> {
    crate::text::glued(
        seq![
            painted(color, Style::Cyan, "[metric]"@),
            " service="@,
            painted(color, Style::Bold, crate::text::cleaned(service)),
            " scope="@,
            crate::text::cleaned(scope),
            " name="@,
            painted(color, Style::Bold, crate::text::cleaned(m.name@)),
            unit_text(m.unit@),
            " "@,
            crate::text::cleaned(data_text(m.data)),
            " "@,
            description_text(m.description@, color),
            "\n"@,
        ],
    )
}

/// The lines of metrics.
pub open spec fn metric_lines(
    metrics: Seq<Metric>,
    service: Seq<char>,
    scope: Seq<char>,
    color: bool,
) -> Seq<char>
    decreases metrics.len(),
{
    if metrics.len() == 0 {
        Seq::empty()
    } else {
        metric_lines(metrics.drop_last(), service, scope, color) + metric_line(
            metrics.last(),
            service,
            scope,
            color,
        )
    }
}

/// The lines of the metrics of several scopes.
pub open spec fn scope_metrics_text(
    scopes: Seq<ScopeMetrics>,
    service: Seq<char>,
    color: bool,
) -> Seq<char>
    decreases scopes.len(),
{
    if scopes.len() == 0 {
        Seq::empty()
    } else {
        scope_metrics_text(scopes.drop_last(), service, color) + metric_lines(
            scopes.last().metrics@,
            service,
            scopes.last().scope@,
            color,
        )
    }
}

/// The lines of the metrics of several resources.
pub open spec fn metrics_text(resources: Seq<ResourceMetrics>, color: bool) -> Seq<char>
    decreases resources.len(),
{
    if resources.len() == 0 {
        Seq::empty()
    } else {
        let r = resources.last();
        metrics_text(resources.drop_last(), color) + scope_metrics_text(
            r.scope_metrics@,
            service_text(r.resource),
            color,
        )
    }
}

/// A number data point as it is shown.
pub fn format_number_point(dp: &NumberDataPoint) -> (r: String)
    ensures
        r@ == number_point_text(*dp),
{
    let mut out = match &dp.value {
        Some(NumberValue::AsDouble(d)) => d.text.clone(),
        Some(NumberValue::AsInt(i)) => signed_decimal_text(*i),
        None => "?".to_owned(),
    };
    if dp.attributes.len() > 0 {
        push_text(&mut out, " ");
        push_text(&mut out, format_attrs(&dp.attributes).as_str());
    }
    out
}

fn format_histogram_point(dp: &HistogramDataPoint) -> (r: String)
    ensures
        r@ == histogram_point_text(*dp),
{
    let mut out = String::new();
    push_text(&mut out, "count=");
    push_text(&mut out, decimal_text(dp.count as u128).as_str());
    push_text(&mut out, " sum=");
    if let Some(d) = &dp.sum {
        push_text(&mut out, d.text.as_str());
    }
    assert(out@ =~= histogram_point_text(*dp));
    out
}

fn format_number_points(points: &Vec<NumberDataPoint>) -> (r: String)
    ensures
        r@ == crate::text::joined(number_point_texts(points@), ", "@),
{
    let mut parts: Vec<String> = Vec::new();
    for i in 0..points.len()
        invariant
            parts@.len() == i,
            forall|j: int| 0 <= j < i ==> #[trigger] parts@[j]@ == number_point_text(points@[j]),
    {
        parts.push(format_number_point(&points[i]));
    }
    assert(crate::text::texts(parts@) =~= number_point_texts(points@));
    join(&parts, ", ")
}

fn format_histogram_points(points: &Vec<HistogramDataPoint>) -> (r: String)
    ensures
        r@ == crate::text::joined(histogram_point_texts(points@), ", "@),
{
    let mut parts: Vec<String> = Vec::new();
    for i in 0..points.len()
        invariant
            parts@.len() == i,
            forall|j: int|
                0 <= j < i ==> #[trigger] parts@[j]@ == histogram_point_text(points@[j]),
    {
        parts.push(format_histogram_point(&points[i]));
    }
    assert(crate::text::texts(parts@) =~= histogram_point_texts(points@));
    join(&parts, ", ")
}

fn format_data(data: &Option<MetricData>) -> (r: String)
    ensures
        r@ == data_text(*data),
{
    let mut out = String::new();
    match data {
        Some(MetricData::Sum(sum)) => {
            push_text(&mut out, "sum=[");
            push_text(&mut out, format_number_points(&sum.data_points).as_str());
            push_text(&mut out, "]");
        },
        Some(MetricData::Gauge(gauge)) => {
            push_text(&mut out, "gauge=[");
            push_text(&mut out, format_number_points(&gauge.data_points).as_str());
            push_text(&mut out, "]");
        },
        Some(MetricData::Histogram(hist)) => {
            push_text(&mut out, "hist=[");
            push_text(&mut out, format_histogram_points(&hist.data_points).as_str());
            push_text(&mut out, "]");
        },
        Some(MetricData::ExponentialHistogram(n)) => {
            push_text(&mut out, "exp_hist=points=");
            push_text(&mut out, decimal_text(*n as u128).as_str());
        },
        Some(MetricData::Summary(n)) => {
            push_text(&mut out, "summary=points=");
            push_text(&mut out, decimal_text(*n as u128).as_str());
        },
        None => {
            push_text(&mut out, "no_data");
        },
    }
    assert(out@ =~= data_text(*data));
    out
}

fn render_unit(unit: &String) -> (r: String)
    ensures
        r@ == unit_text(unit@),
{
    let mut out = String::new();
    if !is_empty(unit.as_str()) {
        push_text(&mut out, " unit=");
        push_text(&mut out, clean(unit.as_str()).as_str());
    }
    assert(out@ =~= unit_text(unit@));
    out
}

fn render_description(p: &Painter, description: &String) -> (r: String)
    ensures
        r@ == description_text(description@, p.color),
{
    if is_empty(description.as_str()) {
        let empty = String::new();
        assert(empty@ =~= Seq::<char>::empty());
        return empty;
    }
    let mut out = String::new();
    push_text(&mut out, "(");
    push_text(&mut out, clean(description.as_str()).as_str());
    push_text(&mut out, ")");
    assert(out@ =~= "("@ + crate::text::cleaned(description@) + ")"@);
    p.dim(out.as_str())
}

fn render_metric(p: &Painter, m: &Metric, service: &String, scope: &String) -> (r: String)
    ensures
        r@ == metric_line(*m, service@, scope@, p.color),
{
    let parts: Vec<String> = vec![
        p.paint(Style::Cyan, "[metric]"),
        " service=".to_owned(),
        p.bold(clean(service.as_str()).as_str()),
        " scope=".to_owned(),
        clean(scope.as_str()),
        " name=".to_owned(),
        p.bold(clean(m.name.as_str()).as_str()),
        render_unit(&m.unit),
        " ".to_owned(),
        clean(format_data(&m.data).as_str()),
        " ".to_owned(),
        render_description(p, &m.description),
        "\n".to_owned(),
    ];
    let ghost color = p.color;
    assert(crate::text::texts(parts@) =~= seq![
        painted(color, Style::Cyan, "[metric]"@),
        " service="@,
        painted(color, Style::Bold, crate::text::cleaned(service@)),
        " scope="@,
        crate::text::cleaned(scope@),
        " name="@,
        painted(color, Style::Bold, crate::text::cleaned(m.name@)),
        unit_text(m.unit@),
        " "@,
        crate::text::cleaned(data_text(m.data)),
        " "@,
        description_text(m.description@, color),
        "\n"@,
    ]);
    glue(&parts)
}

/// Appends the lines of metrics.
pub fn render_metrics(out: &mut String, p: &Painter, req: &MetricsRequest)
    ensures
        final(out)@ == old(out)@ + metrics_text(req.resource_metrics@, p.color),
{
    let ghost start = out@;
    let resources = &req.resource_metrics;
    assert(out@ =~= start + metrics_text(resources@.take(0), p.color));
    for i in 0..resources.len()
        invariant
            resources == &req.resource_metrics,
            out@ == start + metrics_text(resources@.take(i as int), p.color),
    {
        assert(resources@.take(i + 1).drop_last() =~= resources@.take(i as int));
        let service = service_label(&resources[i].resource);
        let scopes = &resources[i].scope_metrics;
        let ghost before = out@;
        assert(out@ =~= before + scope_metrics_text(scopes@.take(0), service@, p.color));
        for j in 0..scopes.len()
            invariant
                out@ == before + scope_metrics_text(scopes@.take(j as int), service@, p.color),
        {
            assert(scopes@.take(j + 1).drop_last() =~= scopes@.take(j as int));
            let metrics = &scopes[j].metrics;
            let ghost above = out@;
            let ghost scope = scopes@[j as int].scope@;
            assert(out@ =~= above + metric_lines(metrics@.take(0), service@, scope, p.color));
            for k in 0..metrics.len()
                invariant
                    j < scopes@.len(),
                    scope == scopes@[j as int].scope@,
                    out@ == above + metric_lines(
                        metrics@.take(k as int),
                        service@,
                        scope,
                        p.color,
                    ),
            {
                assert(metrics@.take(k + 1).drop_last() =~= metrics@.take(k as int));
                push_text(
                    out,
                    render_metric(p, &metrics[k], &service, &scopes[j].scope).as_str(),
                );
                assert(out@ =~= above + metric_lines(
                    metrics@.take(k + 1),
                    service@,
                    scope,
                    p.color,
                ));
            }
            assert(metrics@.take(metrics@.len() as int) =~= metrics@);
            assert(out@ =~= before + scope_metrics_text(scopes@.take(j + 1), service@, p.color));
        }
        assert(scopes@.take(scopes@.len() as int) =~= scopes@);
        assert(out@ =~= start + metrics_text(resources@.take(i + 1), p.color));
    }
    assert(resources@.take(resources@.len() as int) =~= resources@);
}

// ---------------------------------------------------------------------------
// Logs
// ---------------------------------------------------------------------------

/// The severity of a log record: its text in upper case, or else the name of
/// the range that its number is in.
pub open spec fn severity_text(number: i32, text: Seq<char>) -> Seq<char> {
    if text.len() > 0 {
        crate::text::uppercase_of(text)
    } else if 1 <= number <= 4 {
        "TRACE"@
    } else if 5 <= number <= 8 {
        "DEBUG"@
    } else if 9 <= number <= 12 {
        "INFO"@
    } else if 13 <= number <= 16 {
        "WARN"@
    } else if 17 <= number <= 20 {
        "ERROR"@
    } else if 21 <= number <= 24 {
        "FATAL"@
    } else {
        "UNSPECIFIED"@
    }
}

/// A severity in its colour.
pub open spec fn severity_shown(severity: Seq<char>, color: bool) -> Seq<char> {
    let shown = crate::text::cleaned(severity);
    if severity == "ERROR"@ || severity == "FATAL"@ {
        painted(color, Style::Red, shown)
    } else if severity == "WARN"@ {
        painted(color, Style::Yellow, shown)
    } else if severity == "INFO"@ {
        painted(color, Style::Green, shown)
    } else if severity == "DEBUG"@ {
        painted(color, Style::Blue, shown)
    } else if severity == "TRACE"@ {
        painted(color, Style::Magenta, shown)
    } else {
        shown
    }
}

/// The body of a log record.
pub open spec fn body_text(body: Option<AnyValue>) -> Seq<char> {
    match body {
        Some(v) => value_text(v),
        None => Seq::empty(),
    }
}

/// The line of a log record.
pub open spec fn log_line(log: LogRecord, service: Seq<char>, scope: Seq<char>, color: bool) -> Seq<
    char,
> {
    crate::text::glued(
        seq![
            painted(color, Style::Yellow, "[log]"@),
            " "@,
            painted(color, Style::Dim, time_text(log.time_unix_nano)),
            " service="@,
            painted(color, Style::Bold, crate::text::cleaned(service)),
            " scope="@,
            crate::text::cleaned(scope),
            " severity="@,
            severity_shown(severity_text(log.severity_number, log.severity_text@), color),
            " body="@,
            crate::text::cleaned(quoted(body_text(log.body))),
            "\n"@,
        ],
    )
}

/// The lines of log records and their attributes.
pub open spec fn log_lines(
    logs: Seq<LogRecord>,
    service: Seq<char>,
    scope: Seq<char>,
    color: bool,
) -> Seq<char>
    decreases logs.len(),
{
    if logs.len() == 0 {
        Seq::empty()
    } else {
        log_lines(logs.drop_last(), service, scope, color) + log_line(
            logs.last(),
            service,
            scope,
            color,
        ) + attrs_line(logs.last().attributes@, color)
    }
}

/// The lines of the log records of several scopes.
pub open spec fn scope_logs_text(scopes: Seq<ScopeLogs>, service: Seq<char>, color: bool) -> Seq<
    char,
>
    decreases scopes.len(),
{
    if scopes.len() == 0 {
        Seq::empty()
    } else {
        scope_logs_text(scopes.drop_last(), service, color) + log_lines(
            scopes.last().log_records@,
            service,
            scopes.last().scope@,
            color,
        )
    }
}

/// The lines of the log records of several resources.
pub open spec fn logs_text(resources: Seq<ResourceLogs>, color: bool) -> Seq<char>
    decreases resources.len(),
{
    if resources.len() == 0 {
        Seq::empty()
    } else {
        let r = resources.last();
        logs_text(resources.drop_last(), color) + scope_logs_text(
            r.scope_logs@,
            service_text(r.resource),
            color,
        )
    }
}

/// The severity of a log record.
pub fn severity_label(number: i32, text: &str) -> (r: String)
    ensures
        r@ == severity_text(number, text@),
{
    if !is_empty(text) {
        return to_uppercase(text);
    }
    let n: i32 = match severity_number(number) {
        Some(n) => n,
        None => 0,
    };
    if n == 0 {
        "UNSPECIFIED".to_owned()
    } else if n <= 4 {
        "TRACE".to_owned()
    } else if n <= 8 {
        "DEBUG".to_owned()
    } else if n <= 12 {
        "INFO".to_owned()
    } else if n <= 16 {
        "WARN".to_owned()
    } else if n <= 20 {
        "ERROR".to_owned()
    } else {
        "FATAL".to_owned()
    }
}

/// A severity in its colour.
pub fn paint_severity(p: &Painter, severity: &str) -> (r: String)
    ensures
        r@ == severity_shown(severity@, p.color),
{
    let shown = clean(severity);
    if same_text(severity, "ERROR") || same_text(severity, "FATAL") {
        p.paint(Style::Red, shown.as_str())
    } else if same_text(severity, "WARN") {
        p.paint(Style::Yellow, shown.as_str())
    } else if same_text(severity, "INFO") {
        p.paint(Style::Green, shown.as_str())
    } else if same_text(severity, "DEBUG") {
        p.paint(Style::Blue, shown.as_str())
    } else if same_text(severity, "TRACE") {
        p.paint(Style::Magenta, shown.as_str())
    } else {
        shown
    }
}

fn render_log(p: &Painter, log: &LogRecord, service: &String, scope: &String) -> (r: String)
    ensures
        r@ == log_line(*log, service@, scope@, p.color),
{
    let severity = severity_label(log.severity_number, log.severity_text.as_str());
    let body = match &log.body {
        Some(v) => any_value_to_string(v),
        None => {
            let empty = String::new();
            assert(empty@ =~= Seq::<char>::empty());
            empty
        },
    };
    let parts: Vec<String> = vec![
        p.paint(Style::Yellow, "[log]"),
        " ".to_owned(),
        p.dim(format_unix_nanos(log.time_unix_nano).as_str()),
        " service=".to_owned(),
        p.bold(clean(service.as_str()).as_str()),
        " scope=".to_owned(),
        clean(scope.as_str()),
        " severity=".to_owned(),
        paint_severity(p, severity.as_str()),
        " body=".to_owned(),
        clean(quote_for_pretty(body.as_str()).as_str()),
        "\n".to_owned(),
    ];
    let ghost color = p.color;
    assert(crate::text::texts(parts@) =~= seq![
        painted(color, Style::Yellow, "[log]"@),
        " "@,
        painted(color, Style::Dim, time_text(log.time_unix_nano)),
        " service="@,
        painted(color, Style::Bold, crate::text::cleaned(service@)),
        " scope="@,
        crate::text::cleaned(scope@),
        " severity="@,
        severity_shown(severity_text(log.severity_number, log.severity_text@), color),
        " body="@,
        crate::text::cleaned(quoted(body_text(log.body))),
        "\n"@,
    ]);
    glue(&parts)
}

/// Appends the lines of log records.
pub fn render_logs(out: &mut String, p: &Painter, req: &LogsRequest)
    ensures
        final(out)@ == old(out)@ + logs_text(req.resource_logs@, p.color),
{
    let ghost start = out@;
    let resources = &req.resource_logs;
    assert(out@ =~= start + logs_text(resources@.take(0), p.color));
    for i in 0..resources.len()
        invariant
            resources == &req.resource_logs,
            out@ == start + logs_text(resources@.take(i as int), p.color),
    {
        assert(resources@.take(i + 1).drop_last() =~= resources@.take(i as int));
        let service = service_label(&resources[i].resource);
        let scopes = &resources[i].scope_logs;
        let ghost before = out@;
        assert(out@ =~= before + scope_logs_text(scopes@.take(0), service@, p.color));
        for j in 0..scopes.len()
            invariant
                out@ == before + scope_logs_text(scopes@.take(j as int), service@, p.color),
        {
            assert(scopes@.take(j + 1).drop_last() =~= scopes@.take(j as int));
            let logs = &scopes[j].log_records;
            let ghost above = out@;
            let ghost scope = scopes@[j as int].scope@;
            assert(out@ =~= above + log_lines(logs@.take(0), service@, scope, p.color));
            for k in 0..logs.len()
                invariant
                    j < scopes@.len(),
                    scope == scopes@[j as int].scope@,
                    out@ == above + log_lines(logs@.take(k as int), service@, scope, p.color),
            {
                assert(logs@.take(k + 1).drop_last() =~= logs@.take(k as int));
                push_text(out, render_log(p, &logs[k], &service, &scopes[j].scope).as_str());
                push_text(out, render_attrs(p, &logs[k].attributes).as_str());
                assert(out@ =~= above + log_lines(logs@.take(k + 1), service@, scope, p.color));
            }
            assert(logs@.take(logs@.len() as int) =~= logs@);
            assert(out@ =~= before + scope_logs_text(scopes@.take(j + 1), service@, p.color));
        }
        assert(scopes@.take(scopes@.len() as int) =~= scopes@);
        assert(out@ =~= start + logs_text(resources@.take(i + 1), p.color));
    }
    assert(resources@.take(resources@.len() as int) =~= resources@);
}

/// A batch as text.
pub open spec fn record_text(record: TelemetryRecord, color: bool) -> Seq<char> {
    match record {
        TelemetryRecord::Traces(req) => traces_text(req.resource_spans@, color),
        TelemetryRecord::Metrics(req) => metrics_text(req.resource_metrics@, color),
        TelemetryRecord::Logs(req) => logs_text(req.resource_logs@, color),
    }
}

/// A batch as text for a reader.
pub fn render(record: &TelemetryRecord, color: bool) -> (r: String)
    ensures
        r@ == record_text(*record, color),
{
    let mut out = String::new();
    let p = Painter { color };
    match record {
        TelemetryRecord::Traces(req) => render_traces(&mut out, &p, req),
        TelemetryRecord::Metrics(req) => render_metrics(&mut out, &p, req),
        TelemetryRecord::Logs(req) => render_logs(&mut out, &p, req),
    }
    assert(out@ =~= record_text(*record, color));
    out
}

// ---------------------------------------------------------------------------
// Totals
// ---------------------------------------------------------------------------

/// Milliseconds as nanoseconds, as far as they can be counted.
pub open spec fn as_nanos(ms: u64) -> nat {
    if ms * 1_000_000 <= u64::MAX {
        (ms * 1_000_000) as nat
    } else {
        u64::MAX as nat
    }
}

/// The counters of a line of totals.
pub open spec fn counters_text(s: crate::aggregator::stats::ModelStats, requests: Seq<char>) -> Seq<
    char,
> {
    crate::text::glued(
        seq![
            "requests="@,
            requests,
            " input="@,
            crate::text::decimal(s.input_tokens as nat),
            " output="@,
            crate::text::decimal(s.output_tokens as nat),
            " cache_read="@,
            crate::text::decimal(s.cache_read_tokens as nat),
            " cache_create="@,
            crate::text::decimal(s.cache_creation_tokens as nat),
            " reasoning="@,
            crate::text::decimal(s.reasoning_output_tokens as nat),
            " cost="@,
            number::cost_text(s.cost_usd),
            " duration="@,
            number::duration_text(as_nanos(s.duration_ms)),
        ],
    )
}

/// The line of an agent's total.
pub open spec fn total_line(
    agent: Seq<char>,
    total: crate::aggregator::stats::ModelStats,
    since: Seq<char>,
    color: bool,
) -> Seq<char> {
    crate::text::glued(
        seq![
            painted(color, Style::Cyan, "[stats:"@ + crate::text::cleaned(agent) + "]"@),
            " "@,
            counters_text(
                total,
                painted(color, Style::Bold, crate::text::decimal(total.request_count as nat)),
            ),
            " since="@,
            painted(color, Style::Dim, crate::text::cleaned(since)),
            "\n"@,
        ],
    )
}

/// The line of a bucket.
pub open spec fn bucket_line(b: BucketStats, color: bool) -> Seq<char> {
    crate::text::glued(
        seq![
            "        "@,
            painted(color, Style::Dim, "breakdown"@),
            " provider="@,
            painted(color, Style::Bold, crate::text::cleaned(b.provider@)),
            " model="@,
            painted(color, Style::Bold, crate::text::cleaned(b.model@)),
            " effort="@,
            painted(color, Style::Bold, crate::text::cleaned(b.effort@)),
            ": "@,
            counters_text(b.stats, crate::text::decimal(b.stats.request_count as nat)),
            "\n"@,
        ],
    )
}

/// The lines of buckets.
pub open spec fn bucket_lines(rows: Seq<Row<String, BucketStats>>, color: bool) -> Seq<char>
    decreases rows.len(),
{
    if rows.len() == 0 {
        Seq::empty()
    } else {
        bucket_lines(rows.drop_last(), color) + bucket_line(rows.last().value, color)
    }
}

/// The lines of agents and their buckets, in the order of their keys.
pub open spec fn agent_lines(
    rows: Seq<Row<String, AgentStats>>,
    since: Seq<char>,
    color: bool,
) -> Seq<char>
    decreases rows.len(),
{
    if rows.len() == 0 {
        Seq::empty()
    } else {
        let a = rows.last();
        agent_lines(rows.drop_last(), since, color) + total_line(
            a.key@,
            a.value.total,
            since,
            color,
        ) + bucket_lines(a.value.buckets.spec_rows(), color)
    }
}

fn to_nanos(ms: u64) -> (r: u64)
    ensures
        r == as_nanos(ms),
{
    if ms <= 18_446_744_073_709 {
        ms * 1_000_000
    } else {
        u64::MAX
    }
}

fn render_counters(s: &crate::aggregator::stats::ModelStats, requests: String) -> (r: String)
    ensures
        r@ == counters_text(*s, requests@),
{
    let parts: Vec<String> = vec![
        "requests=".to_owned(),
        requests,
        " input=".to_owned(),
        decimal_text(s.input_tokens as u128),
        " output=".to_owned(),
        decimal_text(s.output_tokens as u128),
        " cache_read=".to_owned(),
        decimal_text(s.cache_read_tokens as u128),
        " cache_create=".to_owned(),
        decimal_text(s.cache_creation_tokens as u128),
        " reasoning=".to_owned(),
        decimal_text(s.reasoning_output_tokens as u128),
        " cost=".to_owned(),
        format_cost(s.cost_usd),
        " duration=".to_owned(),
        format_duration_ns(to_nanos(s.duration_ms)),
    ];
    assert(crate::text::texts(parts@) =~= seq![
        "requests="@,
        requests@,
        " input="@,
        crate::text::decimal(s.input_tokens as nat),
        " output="@,
        crate::text::decimal(s.output_tokens as nat),
        " cache_read="@,
        crate::text::decimal(s.cache_read_tokens as nat),
        " cache_create="@,
        crate::text::decimal(s.cache_creation_tokens as nat),
        " reasoning="@,
        crate::text::decimal(s.reasoning_output_tokens as nat),
        " cost="@,
        number::cost_text(s.cost_usd),
        " duration="@,
        number::duration_text(as_nanos(s.duration_ms)),
    ]);
    glue(&parts)
}

fn render_total(
    p: &Painter,
    agent: &String,
    total: &crate::aggregator::stats::ModelStats,
    since: &String,
) -> (r: String)
    ensures
        r@ == total_line(agent@, *total, since@, p.color),
{
    let mut tag = String::new();
    push_text(&mut tag, "[stats:");
    push_text(&mut tag, clean(agent.as_str()).as_str());
    push_text(&mut tag, "]");
    assert(tag@ =~= "[stats:"@ + crate::text::cleaned(agent@) + "]"@);
    let parts: Vec<String> = vec![
        p.paint(Style::Cyan, tag.as_str()),
        " ".to_owned(),
        render_counters(
            total,
            p.bold(decimal_text(total.request_count as u128).as_str()),
        ),
        " since=".to_owned(),
        p.dim(clean(since.as_str()).as_str()),
        "\n".to_owned(),
    ];
    let ghost color = p.color;
    assert(crate::text::texts(parts@) =~= seq![
        painted(color, Style::Cyan, "[stats:"@ + crate::text::cleaned(agent@) + "]"@),
        " "@,
        counters_text(
            *total,
            painted(color, Style::Bold, crate::text::decimal(total.request_count as nat)),
        ),
        " since="@,
        painted(color, Style::Dim, crate::text::cleaned(since@)),
        "\n"@,
    ]);
    glue(&parts)
}

fn render_bucket(p: &Painter, b: &BucketStats) -> (r: String)
    ensures
        r@ == bucket_line(*b, p.color),
{
    let parts: Vec<String> = vec![
        "        ".to_owned(),
        p.dim("breakdown"),
        " provider=".to_owned(),
        p.bold(clean(b.provider.as_str()).as_str()),
        " model=".to_owned(),
        p.bold(clean(b.model.as_str()).as_str()),
        " effort=".to_owned(),
        p.bold(clean(b.effort.as_str()).as_str()),
        ": ".to_owned(),
        render_counters(&b.stats, decimal_text(b.stats.request_count as u128)),
        "\n".to_owned(),
    ];
    let ghost color = p.color;
    assert(crate::text::texts(parts@) =~= seq![
        "        "@,
        painted(color, Style::Dim, "breakdown"@),
        " provider="@,
        painted(color, Style::Bold, crate::text::cleaned(b.provider@)),
        " model="@,
        painted(color, Style::Bold, crate::text::cleaned(b.model@)),
        " effort="@,
        painted(color, Style::Bold, crate::text::cleaned(b.effort@)),
        ": "@,
        counters_text(b.stats, crate::text::decimal(b.stats.request_count as nat)),
        "\n"@,
    ]);
    glue(&parts)
}

fn render_buckets(p: &Painter, stats: &AgentStats) -> (r: String)
    ensures
        r@ == bucket_lines(stats.buckets.spec_rows(), p.color),
{
    let mut out = String::new();
    let ghost rows = stats.buckets.spec_rows();
    let count: usize = stats.buckets.len();
    assert(out@ =~= bucket_lines(rows.take(0), p.color));
    for i in 0..count
        invariant
            count == rows.len(),
            rows == stats.buckets.spec_rows(),
            out@ == bucket_lines(rows.take(i as int), p.color),
    {
        assert(rows.take(i + 1).drop_last() =~= rows.take(i as int));
        push_text(&mut out, render_bucket(p, &stats.buckets.row(i).value).as_str());
    }
    assert(rows.take(rows.len() as int) =~= rows);
    out
}

/// The totals as text: a line for each agent, with one for each of its buckets
/// below.
pub fn render_summary(snapshot: &UsageSnapshot, color: bool) -> (r: String)
    ensures
        r@ == agent_lines(snapshot.agents.spec_rows(), snapshot.started_at@, color),
{
    let p = Painter { color };
    let mut out = String::new();
    let ghost rows = snapshot.agents.spec_rows();
    let count: usize = snapshot.agents.len();
    assert(out@ =~= agent_lines(rows.take(0), snapshot.started_at@, color));
    for i in 0..count
        invariant
            p.color == color,
            count == rows.len(),
            rows == snapshot.agents.spec_rows(),
            out@ == agent_lines(rows.take(i as int), snapshot.started_at@, color),
    {
        assert(rows.take(i + 1).drop_last() =~= rows.take(i as int));
        let row = snapshot.agents.row(i);
        push_text(
            &mut out,
            render_total(&p, &row.key, &row.value.total, &snapshot.started_at).as_str(),
        );
        push_text(&mut out, render_buckets(&p, &row.value).as_str());
    }
    assert(rows.take(rows.len() as int) =~= rows);
    out
}

} // verus!
