//! What is shown of telemetry and totals, text by text.

use super::Style;
use crate::aggregator::stats::ModelStats;
use crate::aggregator::{AgentStats, BucketStats};
use crate::otlp::{
    AnyValue, Event, KeyValue, LogRecord, Metric, MetricData, NumberDataPoint, NumberValue,
    ResourceLogs, ResourceMetrics, ResourceSpans, ScopeLogs, ScopeMetrics, ScopeSpans, Span, Value,
};
use crate::table::Row;
use vstd::prelude::*;

verus! {

proof fn lemma_glue(parts: Seq<Seq<char>>, last: Seq<char>)
    ensures
        crate::text::glued(parts.push(last)) == crate::text::glued(parts) + last,
{
    assert(parts.push(last).drop_last() =~= parts);
}

/// The word for a status code of OTLP.
pub open spec fn status_word(code: i32) -> Seq<char> {
    if code == 1 {
        "OK"@
    } else if code == 2 {
        "ERROR"@
    } else {
        "UNSET"@
    }
}

/// The time from a start to an end; none where the end comes first.
pub open spec fn time_between(start: u64, end: u64) -> nat {
    if end >= start {
        (end - start) as nat
    } else {
        0
    }
}

/// The status of a span is shown by its OTLP code: 1 as OK, 2 as ERROR, and every
/// other code, 0 among them, as UNSET.
pub proof fn law_status_is_shown_by_its_code(code: i32)
    ensures
        code == 1 ==> super::status_text(code, false) == "OK"@,
        code == 2 ==> super::status_text(code, false) == "ERROR"@,
        code != 1 && code != 2 ==> super::status_text(code, false) == "UNSET"@,
        code == 1 ==> super::status_text(code, true) == "\u{1b}[32m"@ + "OK"@ + "\u{1b}[0m"@,
        code == 2 ==> super::status_text(code, true) == "\u{1b}[31m"@ + "ERROR"@ + "\u{1b}[0m"@,
        code != 1 && code != 2 ==> super::status_text(code, true) == "\u{1b}[2m"@ + "UNSET"@
            + "\u{1b}[0m"@,
{
}

/// The severity of a log record without a severity text is shown by its OTLP number,
/// four numbers to a name; one with a text is shown by that text in upper case.
pub proof fn law_severity_is_shown_by_its_number(number: i32, text: Seq<char>)
    ensures
        text.len() > 0 ==> super::severity_text(number, text) == crate::text::uppercase_of(text),
        text.len() == 0 ==> {
            let shown = super::severity_text(number, text);
            &&& number == 1 || number == 2 || number == 3 || number == 4 ==> shown == "TRACE"@
            &&& number == 5 || number == 6 || number == 7 || number == 8 ==> shown == "DEBUG"@
            &&& number == 9 || number == 10 || number == 11 || number == 12 ==> shown == "INFO"@
            &&& number == 13 || number == 14 || number == 15 || number == 16 ==> shown == "WARN"@
            &&& number == 17 || number == 18 || number == 19 || number == 20 ==> shown == "ERROR"@
            &&& number == 21 || number == 22 || number == 23 || number == 24 ==> shown == "FATAL"@
            &&& number < 1 || number > 24 ==> shown == "UNSPECIFIED"@
        },
{
}

/// A severity is shown as it is, without control characters; in colour, errors are
/// red, warnings yellow, information green, debugging blue and traces magenta.
pub proof fn law_severity_colours(severity: Seq<char>)
    ensures
        super::severity_shown(severity, false) == crate::text::cleaned(severity),
        severity == "ERROR"@ || severity == "FATAL"@ ==> super::severity_shown(severity, true)
            == "\u{1b}[31m"@ + crate::text::cleaned(severity) + "\u{1b}[0m"@,
        severity == "WARN"@ ==> super::severity_shown(severity, true) == "\u{1b}[33m"@
            + crate::text::cleaned(severity) + "\u{1b}[0m"@,
        severity == "INFO"@ ==> super::severity_shown(severity, true) == "\u{1b}[32m"@
            + crate::text::cleaned(severity) + "\u{1b}[0m"@,
        severity == "DEBUG"@ ==> super::severity_shown(severity, true) == "\u{1b}[34m"@
            + crate::text::cleaned(severity) + "\u{1b}[0m"@,
        severity == "TRACE"@ ==> super::severity_shown(severity, true) == "\u{1b}[35m"@
            + crate::text::cleaned(severity) + "\u{1b}[0m"@,
{
    reveal_strlit("ERROR");
    reveal_strlit("FATAL");
    reveal_strlit("WARN");
    reveal_strlit("INFO");
    reveal_strlit("DEBUG");
    reveal_strlit("TRACE");
    assert("ERROR"@[0] == 'E' && "FATAL"@[0] == 'F' && "WARN"@[0] == 'W' && "INFO"@[0] == 'I'
        && "DEBUG"@[0] == 'D' && "TRACE"@[0] == 'T');
}

/// Text in a style stands between the escape sequence of the style and the one that
/// ends it, and without colour it is the text alone.
pub proof fn law_styles(text: Seq<char>)
    ensures
        forall|style: Style| #[trigger] super::painted(false, style, text) == text,
        super::painted(true, Style::Dim, text) == "\u{1b}[2m"@ + text + "\u{1b}[0m"@,
        super::painted(true, Style::Bold, text) == "\u{1b}[1m"@ + text + "\u{1b}[0m"@,
        super::painted(true, Style::Red, text) == "\u{1b}[31m"@ + text + "\u{1b}[0m"@,
        super::painted(true, Style::Green, text) == "\u{1b}[32m"@ + text + "\u{1b}[0m"@,
        super::painted(true, Style::Yellow, text) == "\u{1b}[33m"@ + text + "\u{1b}[0m"@,
        super::painted(true, Style::Blue, text) == "\u{1b}[34m"@ + text + "\u{1b}[0m"@,
        super::painted(true, Style::Magenta, text) == "\u{1b}[35m"@ + text + "\u{1b}[0m"@,
        super::painted(true, Style::Cyan, text) == "\u{1b}[36m"@ + text + "\u{1b}[0m"@,
{
}

/// The line of a span holds its start, service, scope and name, how long it took,
/// its status and its identifiers.
pub proof fn law_line_of_a_span(span: Span, service: Seq<char>, scope: Seq<char>)
    ensures
        super::span_line(span, service, scope, false) == "[trace]"@ + " "@
            + super::time_text(span.start_time_unix_nano) + " service="@
            + crate::text::cleaned(service) + " scope="@ + crate::text::cleaned(scope) + " span="@
            + crate::text::cleaned(span.name@) + " dur="@
            + super::number::duration_text(time_between(span.start_time_unix_nano, span.end_time_unix_nano))
            + " status="@
            + status_word(span.status_code)
            + " trace="@
            + (if span.trace_id@.len() == 0 { "-"@ } else { crate::text::hex_of(span.trace_id@) })
            + " span_id="@
            + (if span.span_id@.len() == 0 { "-"@ } else { crate::text::hex_of(span.span_id@) })
            + "\n"@,
{
    let p0 = Seq::<Seq<char>>::empty();
    let a0 = "[trace]"@;
    let p1 = p0.push(a0);
    lemma_glue(p0, a0);
    let a1 = " "@;
    let p2 = p1.push(a1);
    lemma_glue(p1, a1);
    let a2 = super::time_text(span.start_time_unix_nano);
    let p3 = p2.push(a2);
    lemma_glue(p2, a2);
    let a3 = " service="@;
    let p4 = p3.push(a3);
    lemma_glue(p3, a3);
    let a4 = crate::text::cleaned(service);
    let p5 = p4.push(a4);
    lemma_glue(p4, a4);
    let a5 = " scope="@;
    let p6 = p5.push(a5);
    lemma_glue(p5, a5);
    let a6 = crate::text::cleaned(scope);
    let p7 = p6.push(a6);
    lemma_glue(p6, a6);
    let a7 = " span="@;
    let p8 = p7.push(a7);
    lemma_glue(p7, a7);
    let a8 = crate::text::cleaned(span.name@);
    let p9 = p8.push(a8);
    lemma_glue(p8, a8);
    let a9 = " dur="@;
    let p10 = p9.push(a9);
    lemma_glue(p9, a9);
    let a10 = super::number::duration_text(time_between(span.start_time_unix_nano, span.end_time_unix_nano));
    let p11 = p10.push(a10);
    lemma_glue(p10, a10);
    let a11 = " status="@;
    let p12 = p11.push(a11);
    lemma_glue(p11, a11);
    let a12 = status_word(span.status_code);
    let p13 = p12.push(a12);
    lemma_glue(p12, a12);
    let a13 = " trace="@;
    let p14 = p13.push(a13);
    lemma_glue(p13, a13);
    let a14 = if span.trace_id@.len() == 0 { "-"@ } else { crate::text::hex_of(span.trace_id@) };
    let p15 = p14.push(a14);
    lemma_glue(p14, a14);
    let a15 = " span_id="@;
    let p16 = p15.push(a15);
    lemma_glue(p15, a15);
    let a16 = if span.span_id@.len() == 0 { "-"@ } else { crate::text::hex_of(span.span_id@) };
    let p17 = p16.push(a16);
    lemma_glue(p16, a16);
    let a17 = "\n"@;
    let p18 = p17.push(a17);
    lemma_glue(p17, a17);
    assert(crate::text::glued(p0) + a0 =~= a0);
    assert(p18
    =~= seq![a0, a1, a2, a3, a4, a5, a6, a7, a8, a9, a10, a11, a12, a13, a14, a15, a16, a17]);
    assert(crate::text::glued(p18) == super::span_line(span, service, scope, false));
}

/// The line of a span event holds its time, name and attributes.
pub proof fn law_line_of_an_event(ev: Event)
    ensures
        super::event_line(ev, false) == "        "@ + "event @"@
            + super::time_text(ev.time_unix_nano) + " "@ + crate::text::cleaned(ev.name@) + " "@
            + crate::text::cleaned(super::attrs_text(ev.attributes@)) + "\n"@,
{
    let p0 = Seq::<Seq<char>>::empty();
    let a0 = "        "@;
    let p1 = p0.push(a0);
    lemma_glue(p0, a0);
    let a1 = "event @"@ + super::time_text(ev.time_unix_nano);
    let p2 = p1.push(a1);
    lemma_glue(p1, a1);
    let a2 = " "@;
    let p3 = p2.push(a2);
    lemma_glue(p2, a2);
    let a3 = crate::text::cleaned(ev.name@);
    let p4 = p3.push(a3);
    lemma_glue(p3, a3);
    let a4 = " "@;
    let p5 = p4.push(a4);
    lemma_glue(p4, a4);
    let a5 = crate::text::cleaned(super::attrs_text(ev.attributes@));
    let p6 = p5.push(a5);
    lemma_glue(p5, a5);
    let a6 = "\n"@;
    let p7 = p6.push(a6);
    lemma_glue(p6, a6);
    assert(crate::text::glued(p0) + a0 =~= a0);
    assert(p7 =~= seq![a0, a1, a2, a3, a4, a5, a6]);
    assert(crate::text::glued(p7) == super::event_line(ev, false));
}

/// The line of a metric holds its service, scope, name, unit, data and description;
/// a unit or description that is empty is left out.
pub proof fn law_line_of_a_metric(m: Metric, service: Seq<char>, scope: Seq<char>)
    ensures
        super::metric_line(m, service, scope, false) == "[metric]"@ + " service="@
            + crate::text::cleaned(service) + " scope="@ + crate::text::cleaned(scope) + " name="@
            + crate::text::cleaned(m.name@)
            + (if m.unit@.len() == 0 { Seq::empty() } else { " unit="@
            + crate::text::cleaned(m.unit@) }) + " "@
            + crate::text::cleaned(super::data_text(m.data)) + " "@
            + (if m.description@.len() == 0 { Seq::empty() } else { "("@
            + crate::text::cleaned(m.description@) + ")"@ }) + "\n"@,
{
    let p0 = Seq::<Seq<char>>::empty();
    let a0 = "[metric]"@;
    let p1 = p0.push(a0);
    lemma_glue(p0, a0);
    let a1 = " service="@;
    let p2 = p1.push(a1);
    lemma_glue(p1, a1);
    let a2 = crate::text::cleaned(service);
    let p3 = p2.push(a2);
    lemma_glue(p2, a2);
    let a3 = " scope="@;
    let p4 = p3.push(a3);
    lemma_glue(p3, a3);
    let a4 = crate::text::cleaned(scope);
    let p5 = p4.push(a4);
    lemma_glue(p4, a4);
    let a5 = " name="@;
    let p6 = p5.push(a5);
    lemma_glue(p5, a5);
    let a6 = crate::text::cleaned(m.name@);
    let p7 = p6.push(a6);
    lemma_glue(p6, a6);
    let a7 = if m.unit@.len() == 0 { Seq::empty() } else { " unit="@
        + crate::text::cleaned(m.unit@) };
    let p8 = p7.push(a7);
    lemma_glue(p7, a7);
    let a8 = " "@;
    let p9 = p8.push(a8);
    lemma_glue(p8, a8);
    let a9 = crate::text::cleaned(super::data_text(m.data));
    let p10 = p9.push(a9);
    lemma_glue(p9, a9);
    let a10 = " "@;
    let p11 = p10.push(a10);
    lemma_glue(p10, a10);
    let a11 = if m.description@.len() == 0 { Seq::empty() } else { "("@
        + crate::text::cleaned(m.description@) + ")"@ };
    let p12 = p11.push(a11);
    lemma_glue(p11, a11);
    let a12 = "\n"@;
    let p13 = p12.push(a12);
    lemma_glue(p12, a12);
    assert(crate::text::glued(p0) + a0 =~= a0);
    assert(p13 =~= seq![a0, a1, a2, a3, a4, a5, a6, a7, a8, a9, a10, a11, a12]);
    assert(crate::text::glued(p13) == super::metric_line(m, service, scope, false));
}

/// The line of a log record holds its time, service, scope, severity and body, which is
/// empty where it has none.
pub proof fn law_line_of_a_log_record(log: LogRecord, service: Seq<char>, scope: Seq<char>)
    ensures
        super::log_line(log, service, scope, false) == "[log]"@ + " "@
            + super::time_text(log.time_unix_nano) + " service="@ + crate::text::cleaned(service)
            + " scope="@ + crate::text::cleaned(scope) + " severity="@
            + crate::text::cleaned(super::severity_text(log.severity_number, log.severity_text@))
            + " body="@
            + crate::text::cleaned(super::quoted(super::body_text(log.body)))
            + "\n"@,
{
    let p0 = Seq::<Seq<char>>::empty();
    let a0 = "[log]"@;
    let p1 = p0.push(a0);
    lemma_glue(p0, a0);
    let a1 = " "@;
    let p2 = p1.push(a1);
    lemma_glue(p1, a1);
    let a2 = super::time_text(log.time_unix_nano);
    let p3 = p2.push(a2);
    lemma_glue(p2, a2);
    let a3 = " service="@;
    let p4 = p3.push(a3);
    lemma_glue(p3, a3);
    let a4 = crate::text::cleaned(service);
    let p5 = p4.push(a4);
    lemma_glue(p4, a4);
    let a5 = " scope="@;
    let p6 = p5.push(a5);
    lemma_glue(p5, a5);
    let a6 = crate::text::cleaned(scope);
    let p7 = p6.push(a6);
    lemma_glue(p6, a6);
    let a7 = " severity="@;
    let p8 = p7.push(a7);
    lemma_glue(p7, a7);
    let a8 = crate::text::cleaned(super::severity_text(log.severity_number, log.severity_text@));
    let p9 = p8.push(a8);
    lemma_glue(p8, a8);
    let a9 = " body="@;
    let p10 = p9.push(a9);
    lemma_glue(p9, a9);
    let a10 = crate::text::cleaned(super::quoted(super::body_text(log.body)));
    let p11 = p10.push(a10);
    lemma_glue(p10, a10);
    let a11 = "\n"@;
    let p12 = p11.push(a11);
    lemma_glue(p11, a11);
    assert(crate::text::glued(p0) + a0 =~= a0);
    assert(p12 =~= seq![a0, a1, a2, a3, a4, a5, a6, a7, a8, a9, a10, a11]);
    assert(crate::text::glued(p12) == super::log_line(log, service, scope, false));
}

/// The counters of a line of totals, each with its name.
pub proof fn law_counters_shown(s: ModelStats, requests: Seq<char>)
    ensures
        super::counters_text(s, requests) == "requests="@ + requests + " input="@
            + crate::text::decimal(s.input_tokens as nat) + " output="@
            + crate::text::decimal(s.output_tokens as nat) + " cache_read="@
            + crate::text::decimal(s.cache_read_tokens as nat) + " cache_create="@
            + crate::text::decimal(s.cache_creation_tokens as nat) + " reasoning="@
            + crate::text::decimal(s.reasoning_output_tokens as nat) + " cost="@
            + super::number::cost_text(s.cost_usd) + " duration="@
            + super::number::duration_text(super::as_nanos(s.duration_ms)),
{
    let p0 = Seq::<Seq<char>>::empty();
    let a0 = "requests="@;
    let p1 = p0.push(a0);
    lemma_glue(p0, a0);
    let a1 = requests;
    let p2 = p1.push(a1);
    lemma_glue(p1, a1);
    let a2 = " input="@;
    let p3 = p2.push(a2);
    lemma_glue(p2, a2);
    let a3 = crate::text::decimal(s.input_tokens as nat);
    let p4 = p3.push(a3);
    lemma_glue(p3, a3);
    let a4 = " output="@;
    let p5 = p4.push(a4);
    lemma_glue(p4, a4);
    let a5 = crate::text::decimal(s.output_tokens as nat);
    let p6 = p5.push(a5);
    lemma_glue(p5, a5);
    let a6 = " cache_read="@;
    let p7 = p6.push(a6);
    lemma_glue(p6, a6);
    let a7 = crate::text::decimal(s.cache_read_tokens as nat);
    let p8 = p7.push(a7);
    lemma_glue(p7, a7);
    let a8 = " cache_create="@;
    let p9 = p8.push(a8);
    lemma_glue(p8, a8);
    let a9 = crate::text::decimal(s.cache_creation_tokens as nat);
    let p10 = p9.push(a9);
    lemma_glue(p9, a9);
    let a10 = " reasoning="@;
    let p11 = p10.push(a10);
    lemma_glue(p10, a10);
    let a11 = crate::text::decimal(s.reasoning_output_tokens as nat);
    let p12 = p11.push(a11);
    lemma_glue(p11, a11);
    let a12 = " cost="@;
    let p13 = p12.push(a12);
    lemma_glue(p12, a12);
    let a13 = super::number::cost_text(s.cost_usd);
    let p14 = p13.push(a13);
    lemma_glue(p13, a13);
    let a14 = " duration="@;
    let p15 = p14.push(a14);
    lemma_glue(p14, a14);
    let a15 = super::number::duration_text(super::as_nanos(s.duration_ms));
    let p16 = p15.push(a15);
    lemma_glue(p15, a15);
    assert(crate::text::glued(p0) + a0 =~= a0);
    assert(p16 =~= seq![a0, a1, a2, a3, a4, a5, a6, a7, a8, a9, a10, a11, a12, a13, a14, a15]);
    assert(crate::text::glued(p16) == super::counters_text(s, requests));
}

/// The line of an agent names the agent, its counters and since when they count.
pub proof fn law_line_of_a_total(agent: Seq<char>, total: ModelStats, since: Seq<char>)
    ensures
        super::total_line(agent, total, since, false) == "[stats:"@ + crate::text::cleaned(agent)
            + "]"@ + " "@
            + super::counters_text(total, crate::text::decimal(total.request_count as nat))
            + " since="@ + crate::text::cleaned(since) + "\n"@,
{
    let p0 = Seq::<Seq<char>>::empty();
    let a0 = "[stats:"@ + crate::text::cleaned(agent) + "]"@;
    let p1 = p0.push(a0);
    lemma_glue(p0, a0);
    let a1 = " "@;
    let p2 = p1.push(a1);
    lemma_glue(p1, a1);
    let a2 = super::counters_text(total, crate::text::decimal(total.request_count as nat));
    let p3 = p2.push(a2);
    lemma_glue(p2, a2);
    let a3 = " since="@;
    let p4 = p3.push(a3);
    lemma_glue(p3, a3);
    let a4 = crate::text::cleaned(since);
    let p5 = p4.push(a4);
    lemma_glue(p4, a4);
    let a5 = "\n"@;
    let p6 = p5.push(a5);
    lemma_glue(p5, a5);
    assert(crate::text::glued(p0) + a0 =~= a0);
    assert(p6 =~= seq![a0, a1, a2, a3, a4, a5]);
    assert(crate::text::glued(p6) == super::total_line(agent, total, since, false));
}

/// The line of a bucket names its provider, model and effort, and its counters.
pub proof fn law_line_of_a_bucket(b: BucketStats)
    ensures
        super::bucket_line(b, false) == "        "@ + "breakdown"@ + " provider="@
            + crate::text::cleaned(b.provider@) + " model="@ + crate::text::cleaned(b.model@)
            + " effort="@ + crate::text::cleaned(b.effort@) + ": "@
            + super::counters_text(b.stats, crate::text::decimal(b.stats.request_count as nat))
            + "\n"@,
{
    let p0 = Seq::<Seq<char>>::empty();
    let a0 = "        "@;
    let p1 = p0.push(a0);
    lemma_glue(p0, a0);
    let a1 = "breakdown"@;
    let p2 = p1.push(a1);
    lemma_glue(p1, a1);
    let a2 = " provider="@;
    let p3 = p2.push(a2);
    lemma_glue(p2, a2);
    let a3 = crate::text::cleaned(b.provider@);
    let p4 = p3.push(a3);
    lemma_glue(p3, a3);
    let a4 = " model="@;
    let p5 = p4.push(a4);
    lemma_glue(p4, a4);
    let a5 = crate::text::cleaned(b.model@);
    let p6 = p5.push(a5);
    lemma_glue(p5, a5);
    let a6 = " effort="@;
    let p7 = p6.push(a6);
    lemma_glue(p6, a6);
    let a7 = crate::text::cleaned(b.effort@);
    let p8 = p7.push(a7);
    lemma_glue(p7, a7);
    let a8 = ": "@;
    let p9 = p8.push(a8);
    lemma_glue(p8, a8);
    let a9 = super::counters_text(b.stats, crate::text::decimal(b.stats.request_count as nat));
    let p10 = p9.push(a9);
    lemma_glue(p9, a9);
    let a10 = "\n"@;
    let p11 = p10.push(a10);
    lemma_glue(p10, a10);
    assert(crate::text::glued(p0) + a0 =~= a0);
    assert(p11 =~= seq![a0, a1, a2, a3, a4, a5, a6, a7, a8, a9, a10]);
    assert(crate::text::glued(p11) == super::bucket_line(b, false));
}

/// Attributes stand on a line of their own, and where there are none there is no
/// line.
pub proof fn law_line_of_attributes(attrs: Seq<KeyValue>)
    ensures
        attrs.len() == 0 ==> super::attrs_line(attrs, false).len() == 0,
        attrs.len() > 0 ==> super::attrs_line(attrs, false) == "        "@ + "attrs:"@ + " "@
            + crate::text::cleaned(super::attrs_text(attrs)) + "\n"@,
{
    let p0 = Seq::<Seq<char>>::empty();
    let text = crate::text::cleaned(super::attrs_text(attrs));
    lemma_glue(p0, "        "@);
    lemma_glue(p0.push("        "@), "attrs:"@);
    lemma_glue(p0.push("        "@).push("attrs:"@), " "@);
    lemma_glue(p0.push("        "@).push("attrs:"@).push(" "@), text);
    lemma_glue(p0.push("        "@).push("attrs:"@).push(" "@).push(text), "\n"@);
    assert(crate::text::glued(p0) + "        "@ =~= "        "@);
    assert(p0.push("        "@).push("attrs:"@).push(" "@).push(text).push("\n"@) =~= seq![
        "        "@,
        "attrs:"@,
        " "@,
        text,
        "\n"@,
    ]);
}

/// The spans of each resource are shown, in order.
pub proof fn law_each_resource_of_spans_is_shown(
    p: Seq<ResourceSpans>,
    q: Seq<ResourceSpans>,
    color: bool,
)
    ensures
        super::traces_text(p + q, color) == super::traces_text(p, color)
            + super::traces_text(q, color),
        super::traces_text(Seq::<ResourceSpans>::empty(), color).len() == 0,
    decreases q.len(),
{
    if q.len() == 0 {
        assert(p + q =~= p);
        assert(super::traces_text(p, color)
            + super::traces_text(q, color) =~= super::traces_text(p, color));
    } else {
        law_each_resource_of_spans_is_shown(p, q.drop_last(), color);
        assert((p + q).drop_last() =~= p + q.drop_last());
        assert(super::traces_text(p + q, color) =~= super::traces_text(p, color)
            + super::traces_text(q, color));
    }
}

/// The spans of each scope are shown, in order.
pub proof fn law_each_scope_of_spans_is_shown(
    p: Seq<ScopeSpans>,
    q: Seq<ScopeSpans>,
    service: Seq<char>,
    color: bool,
)
    ensures
        super::scope_spans_text(p
            + q, service, color) == super::scope_spans_text(p, service, color)
            + super::scope_spans_text(q, service, color),
        super::scope_spans_text(Seq::<ScopeSpans>::empty(), service, color).len() == 0,
    decreases q.len(),
{
    if q.len() == 0 {
        assert(p + q =~= p);
        assert(super::scope_spans_text(p, service, color)
            + super::scope_spans_text(q, service, color)
            =~= super::scope_spans_text(p, service, color));
    } else {
        law_each_scope_of_spans_is_shown(p, q.drop_last(), service, color);
        assert((p + q).drop_last() =~= p + q.drop_last());
        assert(super::scope_spans_text(p
            + q, service, color) =~= super::scope_spans_text(p, service, color)
            + super::scope_spans_text(q, service, color));
    }
}

/// Each span is shown, in order.
pub proof fn law_each_span_is_shown(
    p: Seq<Span>,
    q: Seq<Span>,
    service: Seq<char>,
    scope: Seq<char>,
    color: bool,
)
    ensures
        super::spans_text(p
            + q, service, scope, color) == super::spans_text(p, service, scope, color)
            + super::spans_text(q, service, scope, color),
        super::spans_text(Seq::<Span>::empty(), service, scope, color).len() == 0,
    decreases q.len(),
{
    if q.len() == 0 {
        assert(p + q =~= p);
        assert(super::spans_text(p, service, scope, color)
            + super::spans_text(q, service, scope, color)
            =~= super::spans_text(p, service, scope, color));
    } else {
        law_each_span_is_shown(p, q.drop_last(), service, scope, color);
        assert((p + q).drop_last() =~= p + q.drop_last());
        assert(super::spans_text(p
            + q, service, scope, color) =~= super::spans_text(p, service, scope, color)
            + super::spans_text(q, service, scope, color));
    }
}

/// Each span event is shown, in order.
pub proof fn law_each_event_is_shown(p: Seq<Event>, q: Seq<Event>, color: bool)
    ensures
        super::event_lines(p + q, color) == super::event_lines(p, color)
            + super::event_lines(q, color),
        super::event_lines(Seq::<Event>::empty(), color).len() == 0,
    decreases q.len(),
{
    if q.len() == 0 {
        assert(p + q =~= p);
        assert(super::event_lines(p, color)
            + super::event_lines(q, color) =~= super::event_lines(p, color));
    } else {
        law_each_event_is_shown(p, q.drop_last(), color);
        assert((p + q).drop_last() =~= p + q.drop_last());
        assert(super::event_lines(p + q, color) =~= super::event_lines(p, color)
            + super::event_lines(q, color));
    }
}

/// The metrics of each resource are shown, in order.
pub proof fn law_each_resource_of_metrics_is_shown(
    p: Seq<ResourceMetrics>,
    q: Seq<ResourceMetrics>,
    color: bool,
)
    ensures
        super::metrics_text(p + q, color) == super::metrics_text(p, color)
            + super::metrics_text(q, color),
        super::metrics_text(Seq::<ResourceMetrics>::empty(), color).len() == 0,
    decreases q.len(),
{
    if q.len() == 0 {
        assert(p + q =~= p);
        assert(super::metrics_text(p, color)
            + super::metrics_text(q, color) =~= super::metrics_text(p, color));
    } else {
        law_each_resource_of_metrics_is_shown(p, q.drop_last(), color);
        assert((p + q).drop_last() =~= p + q.drop_last());
        assert(super::metrics_text(p + q, color) =~= super::metrics_text(p, color)
            + super::metrics_text(q, color));
    }
}

/// The metrics of each scope are shown, in order.
pub proof fn law_each_scope_of_metrics_is_shown(
    p: Seq<ScopeMetrics>,
    q: Seq<ScopeMetrics>,
    service: Seq<char>,
    color: bool,
)
    ensures
        super::scope_metrics_text(p
            + q, service, color) == super::scope_metrics_text(p, service, color)
            + super::scope_metrics_text(q, service, color),
        super::scope_metrics_text(Seq::<ScopeMetrics>::empty(), service, color).len() == 0,
    decreases q.len(),
{
    if q.len() == 0 {
        assert(p + q =~= p);
        assert(super::scope_metrics_text(p, service, color)
            + super::scope_metrics_text(q, service, color)
            =~= super::scope_metrics_text(p, service, color));
    } else {
        law_each_scope_of_metrics_is_shown(p, q.drop_last(), service, color);
        assert((p + q).drop_last() =~= p + q.drop_last());
        assert(super::scope_metrics_text(p
            + q, service, color) =~= super::scope_metrics_text(p, service, color)
            + super::scope_metrics_text(q, service, color));
    }
}

/// Each metric is shown, in order.
pub proof fn law_each_metric_is_shown(
    p: Seq<Metric>,
    q: Seq<Metric>,
    service: Seq<char>,
    scope: Seq<char>,
    color: bool,
)
    ensures
        super::metric_lines(p
            + q, service, scope, color) == super::metric_lines(p, service, scope, color)
            + super::metric_lines(q, service, scope, color),
        super::metric_lines(Seq::<Metric>::empty(), service, scope, color).len() == 0,
    decreases q.len(),
{
    if q.len() == 0 {
        assert(p + q =~= p);
        assert(super::metric_lines(p, service, scope, color)
            + super::metric_lines(q, service, scope, color)
            =~= super::metric_lines(p, service, scope, color));
    } else {
        law_each_metric_is_shown(p, q.drop_last(), service, scope, color);
        assert((p + q).drop_last() =~= p + q.drop_last());
        assert(super::metric_lines(p
            + q, service, scope, color) =~= super::metric_lines(p, service, scope, color)
            + super::metric_lines(q, service, scope, color));
    }
}

/// The log records of each resource are shown, in order.
pub proof fn law_each_resource_of_logs_is_shown(
    p: Seq<ResourceLogs>,
    q: Seq<ResourceLogs>,
    color: bool,
)
    ensures
        super::logs_text(p + q, color) == super::logs_text(p, color) + super::logs_text(q, color),
        super::logs_text(Seq::<ResourceLogs>::empty(), color).len() == 0,
    decreases q.len(),
{
    if q.len() == 0 {
        assert(p + q =~= p);
        assert(super::logs_text(p, color)
            + super::logs_text(q, color) =~= super::logs_text(p, color));
    } else {
        law_each_resource_of_logs_is_shown(p, q.drop_last(), color);
        assert((p + q).drop_last() =~= p + q.drop_last());
        assert(super::logs_text(p + q, color) =~= super::logs_text(p, color)
            + super::logs_text(q, color));
    }
}

/// The log records of each scope are shown, in order.
pub proof fn law_each_scope_of_logs_is_shown(
    p: Seq<ScopeLogs>,
    q: Seq<ScopeLogs>,
    service: Seq<char>,
    color: bool,
)
    ensures
        super::scope_logs_text(p + q, service, color) == super::scope_logs_text(p, service, color)
            + super::scope_logs_text(q, service, color),
        super::scope_logs_text(Seq::<ScopeLogs>::empty(), service, color).len() == 0,
    decreases q.len(),
{
    if q.len() == 0 {
        assert(p + q =~= p);
        assert(super::scope_logs_text(p, service, color)
            + super::scope_logs_text(q, service, color)
            =~= super::scope_logs_text(p, service, color));
    } else {
        law_each_scope_of_logs_is_shown(p, q.drop_last(), service, color);
        assert((p + q).drop_last() =~= p + q.drop_last());
        assert(super::scope_logs_text(p
            + q, service, color) =~= super::scope_logs_text(p, service, color)
            + super::scope_logs_text(q, service, color));
    }
}

/// Each log record is shown, in order.
pub proof fn law_each_log_record_is_shown(
    p: Seq<LogRecord>,
    q: Seq<LogRecord>,
    service: Seq<char>,
    scope: Seq<char>,
    color: bool,
)
    ensures
        super::log_lines(p
            + q, service, scope, color) == super::log_lines(p, service, scope, color)
            + super::log_lines(q, service, scope, color),
        super::log_lines(Seq::<LogRecord>::empty(), service, scope, color).len() == 0,
    decreases q.len(),
{
    if q.len() == 0 {
        assert(p + q =~= p);
        assert(super::log_lines(p, service, scope, color)
            + super::log_lines(q, service, scope, color)
            =~= super::log_lines(p, service, scope, color));
    } else {
        law_each_log_record_is_shown(p, q.drop_last(), service, scope, color);
        assert((p + q).drop_last() =~= p + q.drop_last());
        assert(super::log_lines(p
            + q, service, scope, color) =~= super::log_lines(p, service, scope, color)
            + super::log_lines(q, service, scope, color));
    }
}

/// Each bucket is shown, in order.
pub proof fn law_each_bucket_is_shown(
    p: Seq<Row<String, BucketStats>>,
    q: Seq<Row<String, BucketStats>>,
    color: bool,
)
    ensures
        super::bucket_lines(p + q, color) == super::bucket_lines(p, color)
            + super::bucket_lines(q, color),
        super::bucket_lines(Seq::<Row<String, BucketStats>>::empty(), color).len() == 0,
    decreases q.len(),
{
    if q.len() == 0 {
        assert(p + q =~= p);
        assert(super::bucket_lines(p, color)
            + super::bucket_lines(q, color) =~= super::bucket_lines(p, color));
    } else {
        law_each_bucket_is_shown(p, q.drop_last(), color);
        assert((p + q).drop_last() =~= p + q.drop_last());
        assert(super::bucket_lines(p + q, color) =~= super::bucket_lines(p, color)
            + super::bucket_lines(q, color));
    }
}

/// Each agent is shown, in order.
pub proof fn law_each_agent_is_shown(
    p: Seq<Row<String, AgentStats>>,
    q: Seq<Row<String, AgentStats>>,
    since: Seq<char>,
    color: bool,
)
    ensures
        super::agent_lines(p + q, since, color) == super::agent_lines(p, since, color)
            + super::agent_lines(q, since, color),
        super::agent_lines(Seq::<Row<String, AgentStats>>::empty(), since, color).len() == 0,
    decreases q.len(),
{
    if q.len() == 0 {
        assert(p + q =~= p);
        assert(super::agent_lines(p, since, color)
            + super::agent_lines(q, since, color) =~= super::agent_lines(p, since, color));
    } else {
        law_each_agent_is_shown(p, q.drop_last(), since, color);
        assert((p + q).drop_last() =~= p + q.drop_last());
        assert(super::agent_lines(p + q, since, color) =~= super::agent_lines(p, since, color)
            + super::agent_lines(q, since, color));
    }
}

/// A batch with a single span shows that span, its attributes and its events, with
/// the service of its resource and the name of its scope.
pub proof fn law_a_single_span_is_shown(r: ResourceSpans, color: bool)
    requires
        r.scope_spans@.len() == 1,
        r.scope_spans@[0].spans@.len() == 1,
    ensures
        ({
            let span = r.scope_spans@[0].spans@[0];
            let service = super::service_text(r.resource);
            super::traces_text(seq![r], color) == super::span_line(
                span,
                service,
                r.scope_spans@[0].scope@,
                color,
            ) + super::attrs_line(span.attributes@, color) + super::event_lines(
                span.events@,
                color,
            )
        }),
{
    let service = super::service_text(r.resource);
    let scope = r.scope_spans@[0].scope@;
    let spans = r.scope_spans@[0].spans@;
    let one = super::span_lines(spans[0], service, scope, color);
    assert(seq![r].drop_last() =~= Seq::<ResourceSpans>::empty());
    assert(r.scope_spans@.drop_last() =~= Seq::<ScopeSpans>::empty());
    assert(spans.drop_last() =~= Seq::<Span>::empty());
    assert(super::spans_text(spans.drop_last(), service, scope, color) + one =~= one);
    assert(super::scope_spans_text(r.scope_spans@.drop_last(), service, color) + one =~= one);
    assert(super::traces_text(seq![r].drop_last(), color) + one =~= one);
}

/// A batch with a single metric shows that metric, with the service of its resource
/// and the name of its scope.
pub proof fn law_a_single_metric_is_shown(r: ResourceMetrics, color: bool)
    requires
        r.scope_metrics@.len() == 1,
        r.scope_metrics@[0].metrics@.len() == 1,
    ensures
        super::metrics_text(seq![r], color) == super::metric_line(
            r.scope_metrics@[0].metrics@[0],
            super::service_text(r.resource),
            r.scope_metrics@[0].scope@,
            color,
        ),
{
    let service = super::service_text(r.resource);
    let scope = r.scope_metrics@[0].scope@;
    let metrics = r.scope_metrics@[0].metrics@;
    let one = super::metric_line(metrics[0], service, scope, color);
    assert(seq![r].drop_last() =~= Seq::<ResourceMetrics>::empty());
    assert(r.scope_metrics@.drop_last() =~= Seq::<ScopeMetrics>::empty());
    assert(metrics.drop_last() =~= Seq::<Metric>::empty());
    assert(super::metric_lines(metrics.drop_last(), service, scope, color) + one =~= one);
    assert(super::scope_metrics_text(r.scope_metrics@.drop_last(), service, color) + one =~= one);
    assert(super::metrics_text(seq![r].drop_last(), color) + one =~= one);
}

/// A batch with a single log record shows that record and its attributes, with the
/// service of its resource and the name of its scope.
pub proof fn law_a_single_log_record_is_shown(r: ResourceLogs, color: bool)
    requires
        r.scope_logs@.len() == 1,
        r.scope_logs@[0].log_records@.len() == 1,
    ensures
        ({
            let log = r.scope_logs@[0].log_records@[0];
            super::logs_text(seq![r], color) == super::log_line(
                log,
                super::service_text(r.resource),
                r.scope_logs@[0].scope@,
                color,
            ) + super::attrs_line(log.attributes@, color)
        }),
{
    let service = super::service_text(r.resource);
    let scope = r.scope_logs@[0].scope@;
    let logs = r.scope_logs@[0].log_records@;
    let line = super::log_line(logs[0], service, scope, color);
    let one = line + super::attrs_line(logs[0].attributes@, color);
    assert(seq![r].drop_last() =~= Seq::<ResourceLogs>::empty());
    assert(r.scope_logs@.drop_last() =~= Seq::<ScopeLogs>::empty());
    assert(logs.drop_last() =~= Seq::<LogRecord>::empty());
    assert(super::log_lines(logs.drop_last(), service, scope, color) + line =~= line);
    assert(super::scope_logs_text(r.scope_logs@.drop_last(), service, color) + one =~= one);
    assert(super::logs_text(seq![r].drop_last(), color) + one =~= one);
}

/// A span event has its own line.
pub proof fn law_a_single_event_is_shown(ev: Event, color: bool)
    ensures
        super::event_lines(seq![ev], color) == super::event_line(ev, color),
{
    let one = super::event_line(ev, color);
    assert(seq![ev].drop_last() =~= Seq::<Event>::empty());
    assert(super::event_lines(seq![ev].drop_last(), color) + one =~= one);
}

/// An agent is shown by the line of its total and the lines of its buckets.
pub proof fn law_a_single_agent_is_shown(
    row: Row<String, AgentStats>,
    since: Seq<char>,
    color: bool,
)
    ensures
        super::agent_lines(seq![row], since, color) == super::total_line(
            row.key@,
            row.value.total,
            since,
            color,
        ) + super::bucket_lines(row.value.buckets.spec_rows(), color),
{
    let line = super::total_line(row.key@, row.value.total, since, color);
    assert(seq![row].drop_last() =~= Seq::<Row<String, AgentStats>>::empty());
    assert(super::agent_lines(seq![row].drop_last(), since, color) + line =~= line);
}

/// A bucket is shown by its line.
pub proof fn law_a_single_bucket_is_shown(row: Row<String, BucketStats>, color: bool)
    ensures
        super::bucket_lines(seq![row], color) == super::bucket_line(row.value, color),
{
    let line = super::bucket_line(row.value, color);
    assert(seq![row].drop_last() =~= Seq::<Row<String, BucketStats>>::empty());
    assert(super::bucket_lines(seq![row].drop_last(), color) + line =~= line);
}

/// Each kind of batch is shown in its own way.
pub proof fn law_batches_are_shown_by_their_kind(record: super::TelemetryRecord, color: bool)
    ensures
        record matches super::TelemetryRecord::Traces(req) ==> super::record_text(record, color)
            == super::traces_text(req.resource_spans@, color),
        record matches super::TelemetryRecord::Metrics(req) ==> super::record_text(record, color)
            == super::metrics_text(req.resource_metrics@, color),
        record matches super::TelemetryRecord::Logs(req) ==> super::record_text(record, color)
            == super::logs_text(req.resource_logs@, color),
{
}

/// Values are shown by their kind: text as it is, numbers in decimal, bytes in
/// hexadecimal, lists in brackets and braces, and nothing where there is no value.
pub proof fn law_values_are_shown_by_their_kind(v: AnyValue)
    ensures
        v.value is None ==> super::value_text(v).len() == 0,
        v.value matches Some(Value::Text(s)) ==> super::value_text(v) == s@,
        v.value == Some(Value::Bool(true)) ==> super::value_text(v) == "true"@,
        v.value == Some(Value::Bool(false)) ==> super::value_text(v) == "false"@,
        v.value matches Some(Value::Int(i)) ==> i >= 0 ==> super::value_text(v)
            == crate::text::decimal(i as nat),
        v.value matches Some(Value::Int(i)) ==> i < 0 ==> super::value_text(v) == "-"@
            + crate::text::decimal((-i) as nat),
        v.value matches Some(Value::Double(d)) ==> super::value_text(v) == d.text@,
        v.value matches Some(Value::Bytes(b)) ==> super::value_text(v) == "0x"@
            + crate::text::hex_of(b@),
        v.value matches Some(Value::Array(a)) ==> super::value_text(v) == "["@
            + crate::text::joined(super::value_texts(a@, a@.len()), ", "@) + "]"@,
        v.value matches Some(Value::Kvlist(kv)) ==> super::value_text(v) == super::attrs_text(kv@),
{
    reveal_strlit("-");
    assert("-"@ =~= seq!['-']);
}

/// Each value of a list is shown, in order.
pub proof fn law_each_value_is_shown(s: Seq<AnyValue>, n: nat)
    requires
        n <= s.len(),
    ensures
        super::value_texts(s, n).len() == n,
        forall|i: int| 0 <= i < n
            ==> #[trigger] super::value_texts(s, n)[i] == super::value_text(s[i]),
    decreases n,
{
    if n > 0 {
        law_each_value_is_shown(s, (n - 1) as nat);
    }
}

/// Each attribute is shown as `key=value`, in order, its value in quotes where it
/// needs them.
pub proof fn law_each_attribute_is_shown(s: Seq<KeyValue>, n: nat)
    requires
        n <= s.len(),
    ensures
        super::attr_texts(s, n).len() == n,
        forall|i: int|
            0 <= i < n ==> #[trigger] super::attr_texts(s, n)[i] == s[i].key@ + "="@
                + super::quoted(match s[i].value {
                Some(v) => super::value_text(v),
                None => Seq::empty(),
            }),
    decreases n,
{
    if n > 0 {
        law_each_attribute_is_shown(s, (n - 1) as nat);
    }
}

/// The text that an escaped text stands for: a backslash stands for the character
/// after it.
pub open spec fn unescaped(s: Seq<char>) -> Seq<char>
    decreases s.len(),
{
    if s.len() == 0 {
        s
    } else if s[0] == '\\' && s.len() > 1 {
        seq![s[1]] + unescaped(s.skip(2))
    } else {
        seq![s[0]] + unescaped(s.skip(1))
    }
}

proof fn lemma_slashed_from_front(s: Seq<char>)
    requires
        s.len() > 0,
    ensures
        super::slashed(s) == (if s[0] == '\\' || s[0] == '"' {
            seq!['\\', s[0]]
        } else {
            seq![s[0]]
        }) + super::slashed(s.skip(1)),
    decreases s.len(),
{
    if s.len() == 1 {
        assert(s.drop_last() =~= Seq::<char>::empty());
        assert(s.skip(1) =~= Seq::<char>::empty());
        assert(super::slashed(s.drop_last()) =~= Seq::<char>::empty());
    } else {
        lemma_slashed_from_front(s.drop_last());
        assert(s.drop_last().skip(1) =~= s.skip(1).drop_last());
        assert(s.skip(1).last() == s.last());
    }
}

proof fn lemma_unescaped(s: Seq<char>)
    ensures
        unescaped(super::slashed(s)) == s,
    decreases s.len(),
{
    if s.len() > 0 {
        lemma_slashed_from_front(s);
        lemma_unescaped(s.skip(1));
        let t = super::slashed(s);
        let rest = super::slashed(s.skip(1));
        assert(s =~= seq![s[0]] + s.skip(1));
        if s[0] == '\\' || s[0] == '"' {
            assert(t[0] == '\\' && t[1] == s[0]);
            assert(t.skip(2) =~= rest);
        } else {
            assert(t[0] == s[0]);
            assert(t.skip(1) =~= rest);
        }
    }
}

/// A text is shown in quotes if and only if it holds a space, a double quote or an
/// equals sign, and what stands between the quotes gives the text back: a backslash
/// stands for the character after it. Other text is shown as it is.
pub proof fn law_quotes_can_be_undone(s: Seq<char>)
    ensures
        ({
            let special = exists|i: int|
                0 <= i < s.len() && (#[trigger] s[i] == ' ' || s[i] == '"' || s[i] == '=');
            let q = super::quoted(s);
            &&& !special ==> q == s
            &&& special ==> q.len() >= 2 && q[0] == '"' && q.last() == '"' && unescaped(
                q.subrange(1, q.len() - 1),
            ) == s
        }),
{
    lemma_unescaped(s);
    let q = super::quoted(s);
    if super::needs_quotes(s) {
        assert(q.subrange(1, q.len() - 1) =~= super::slashed(s));
    }
}

/// Data points are shown by their value, and the attributes after it where there are
/// any.
pub proof fn law_points_are_shown_by_their_value(dp: NumberDataPoint)
    ensures
        dp.attributes@.len() == 0 ==> {
            &&& dp.value is None ==> super::number_point_text(dp) == "?"@
            &&& dp.value matches Some(NumberValue::AsInt(i)) ==> super::number_point_text(dp)
                == crate::text::signed_decimal(i as int)
            &&& dp.value matches Some(NumberValue::AsDouble(d)) ==> super::number_point_text(dp)
                == d.text@
        },
        dp.attributes@.len() > 0 ==> {
            let after = " "@ + super::attrs_text(dp.attributes@);
            &&& dp.value is None ==> super::number_point_text(dp) == "?"@ + after
            &&& dp.value matches Some(NumberValue::AsInt(i)) ==> super::number_point_text(dp)
                == crate::text::signed_decimal(i as int) + after
            &&& dp.value matches Some(NumberValue::AsDouble(d)) ==> super::number_point_text(dp)
                == d.text@ + after
        },
{
    if dp.attributes@.len() > 0 {
        let v = match dp.value {
            Some(NumberValue::AsDouble(d)) => d.text@,
            Some(NumberValue::AsInt(i)) => crate::text::signed_decimal(i as int),
            None => "?"@,
        };
        let after = " "@ + super::attrs_text(dp.attributes@);
        assert(v + " "@ + super::attrs_text(dp.attributes@) =~= v + after);
    }
}

/// The data of a metric is shown by its kind, each data point in order.
pub proof fn law_data_is_shown_by_its_kind(data: Option<MetricData>)
    ensures
        data is None ==> super::data_text(data) == "no_data"@,
        data matches Some(MetricData::Summary(n)) ==> super::data_text(data) == "summary=points="@
            + crate::text::decimal(n as nat),
        data matches Some(MetricData::ExponentialHistogram(n)) ==> super::data_text(data)
            == "exp_hist=points="@ + crate::text::decimal(n as nat),
        data matches Some(MetricData::Sum(sum)) ==> super::data_text(data) == "sum=["@
            + crate::text::joined(
            Seq::new(
                sum.data_points@.len(),
                |i: int| super::number_point_text(sum.data_points@[i]),
            ),
            ", "@,
        ) + "]"@,
        data matches Some(MetricData::Gauge(gauge)) ==> super::data_text(data) == "gauge=["@
            + crate::text::joined(
            Seq::new(
                gauge.data_points@.len(),
                |i: int| super::number_point_text(gauge.data_points@[i]),
            ),
            ", "@,
        ) + "]"@,
        data matches Some(MetricData::Histogram(hist)) ==> super::data_text(data) == "hist=["@
            + crate::text::joined(
            Seq::new(
                hist.data_points@.len(),
                |i: int|
                    "count="@ + crate::text::decimal(hist.data_points@[i].count as nat) + " sum="@
                        + (match hist.data_points@[i].sum {
                        Some(d) => d.text@,
                        None => Seq::empty(),
                    }),
            ),
            ", "@,
        ) + "]"@,
{
    match data {
        Some(MetricData::Sum(sum)) => {
            assert(super::number_point_texts(sum.data_points@) =~= Seq::new(
                sum.data_points@.len(),
                |i: int| super::number_point_text(sum.data_points@[i]),
            ));
        },
        Some(MetricData::Gauge(gauge)) => {
            assert(super::number_point_texts(gauge.data_points@) =~= Seq::new(
                gauge.data_points@.len(),
                |i: int| super::number_point_text(gauge.data_points@[i]),
            ));
        },
        Some(MetricData::Histogram(hist)) => {
            let shown = super::histogram_point_texts(hist.data_points@);
            let texts = Seq::new(
                hist.data_points@.len(),
                |i: int|
                    "count="@ + crate::text::decimal(hist.data_points@[i].count as nat) + " sum="@
                        + (match hist.data_points@[i].sum {
                        Some(d) => d.text@,
                        None => Seq::empty(),
                    }),
            );
            assert(shown =~= texts);
        },
        _ => {},
    }
}

/// A list of attributes stands in braces, with a comma and a space between them.
pub proof fn law_attributes_stand_in_braces(s: Seq<KeyValue>)
    ensures
        super::attrs_text(s) == "{"@ + crate::text::joined(super::attr_texts(s, s.len()), ", "@)
            + "}"@,
{
}

/// A service without a name is shown as `unknown`, and a time that is not known, or
/// an identifier without bytes, as a dash.
pub proof fn law_what_is_not_known(resource: Option<crate::otlp::Resource>)
    ensures
        resource is None ==> super::service_text(resource) == "unknown"@,
        resource matches Some(r) ==> crate::otlp::attr_of(r.attributes@, "service.name"@) is None
            ==> super::service_text(resource) == "unknown"@,
        resource matches Some(r) ==> crate::otlp::text_attr(
            r.attributes@,
            "service.name"@,
        ) is Some ==> super::service_text(resource) == crate::otlp::text_attr(
            r.attributes@,
            "service.name"@,
        )->0,
        super::time_text(0) == "-"@,
        super::id_text(Seq::empty()) == "-"@,
        forall|bytes: Seq<u8>|
            bytes.len() > 0 ==> #[trigger] super::id_text(bytes) == crate::text::hex_of(bytes),
{
}

/// Milliseconds are shown as a million times as many nanoseconds, as far as these can
/// be counted.
pub proof fn law_milliseconds_as_nanoseconds(ms: u64)
    ensures
        ms * 1_000_000 <= 0xffff_ffff_ffff_ffff ==> super::as_nanos(ms) == ms * 1_000_000,
        ms * 1_000_000 > 0xffff_ffff_ffff_ffff ==> super::as_nanos(ms) == 0xffff_ffff_ffff_ffff,
{
}

/// A text with a status in it, behind its name and in front of the trace identifier.
pub open spec fn with_status(front: Seq<char>, status: Seq<char>, back: Seq<char>) -> Seq<char> {
    front + " status="@ + status + " trace="@ + back
}

/// Rendered without colour, a batch with a single span without attributes and events is one
/// line with the status of the span: OK for code 1, ERROR for code 2, and else UNSET.
pub proof fn law_rendering_a_span(req: crate::otlp::TraceRequest, r: String)
    requires
        call_ensures(super::render, (&super::TelemetryRecord::Traces(req), false), r),
        req.resource_spans@.len() == 1,
        req.resource_spans@[0].scope_spans@.len() == 1,
        req.resource_spans@[0].scope_spans@[0].spans@.len() == 1,
        req.resource_spans@[0].scope_spans@[0].spans@[0].attributes@.len() == 0,
        req.resource_spans@[0].scope_spans@[0].spans@[0].events@.len() == 0,
    ensures
        ({
            let span = req.resource_spans@[0].scope_spans@[0].spans@[0];
            let status = status_word(span.status_code);
            exists|front: Seq<char>, back: Seq<char>|
                r@ == #[trigger] with_status(front, status, back)
        }),
{
    let resource = req.resource_spans@[0];
    let span = resource.scope_spans@[0].spans@[0];
    let service = super::service_text(resource.resource);
    let scope = resource.scope_spans@[0].scope@;
    law_a_single_span_is_shown(resource, false);
    assert(req.resource_spans@ =~= seq![resource]);
    law_line_of_attributes(span.attributes@);
    assert(super::event_lines(span.events@, false).len() == 0);
    let line = super::span_line(span, service, scope, false);
    assert(r@ =~= line);
    law_line_of_a_span(span, service, scope);
    let status = status_word(span.status_code);
    let front = "[trace]"@ + " "@ + super::time_text(span.start_time_unix_nano) + " service="@
        + crate::text::cleaned(service) + " scope="@ + crate::text::cleaned(scope) + " span="@
        + crate::text::cleaned(span.name@) + " dur="@ + super::number::duration_text(
        time_between(span.start_time_unix_nano, span.end_time_unix_nano),
    );
    let back = (if span.trace_id@.len() == 0 {
        "-"@
    } else {
        crate::text::hex_of(span.trace_id@)
    }) + " span_id="@ + (if span.span_id@.len() == 0 {
        "-"@
    } else {
        crate::text::hex_of(span.span_id@)
    }) + "\n"@;
    assert(line =~= with_status(front, status, back));
}

/// Text between the escape sequence of a style, by its number, and the one that ends it.
pub open spec fn in_style(number: nat, text: Seq<char>) -> Seq<char> {
    "\u{1b}["@ + crate::text::decimal(number) + "m"@ + text + "\u{1b}[0m"@
}

proof fn lemma_styles(text: Seq<char>)
    ensures
        super::painted(true, Style::Dim, text) == in_style(2, text),
        super::painted(true, Style::Bold, text) == in_style(1, text),
        super::painted(true, Style::Red, text) == in_style(31, text),
        super::painted(true, Style::Green, text) == in_style(32, text),
        super::painted(true, Style::Yellow, text) == in_style(33, text),
        super::painted(true, Style::Magenta, text) == in_style(35, text),
        super::painted(true, Style::Cyan, text) == in_style(36, text),
{
    reveal_with_fuel(crate::text::decimal, 3);
    reveal_strlit("\u{1b}[");
    reveal_strlit("m");
    reveal_strlit("\u{1b}[1m");
    reveal_strlit("\u{1b}[2m");
    reveal_strlit("\u{1b}[31m");
    reveal_strlit("\u{1b}[32m");
    reveal_strlit("\u{1b}[33m");
    reveal_strlit("\u{1b}[35m");
    reveal_strlit("\u{1b}[36m");
    assert(crate::text::decimal(1) =~= seq!['1']);
    assert(crate::text::decimal(2) =~= seq!['2']);
    assert(crate::text::decimal(31) =~= seq!['3', '1']);
    assert(crate::text::decimal(32) =~= seq!['3', '2']);
    assert(crate::text::decimal(33) =~= seq!['3', '3']);
    assert(crate::text::decimal(35) =~= seq!['3', '5']);
    assert(crate::text::decimal(36) =~= seq!['3', '6']);
    assert("\u{1b}[1m"@ =~= "\u{1b}["@ + seq!['1'] + "m"@);
    assert("\u{1b}[2m"@ =~= "\u{1b}["@ + seq!['2'] + "m"@);
    assert("\u{1b}[31m"@ =~= "\u{1b}["@ + seq!['3', '1'] + "m"@);
    assert("\u{1b}[32m"@ =~= "\u{1b}["@ + seq!['3', '2'] + "m"@);
    assert("\u{1b}[33m"@ =~= "\u{1b}["@ + seq!['3', '3'] + "m"@);
    assert("\u{1b}[35m"@ =~= "\u{1b}["@ + seq!['3', '5'] + "m"@);
    assert("\u{1b}[36m"@ =~= "\u{1b}["@ + seq!['3', '6'] + "m"@);
}

/// In colour, the tag of a span is magenta, its start dim, and its service and name bold.
pub proof fn law_colours_of_a_span(span: Span, service: Seq<char>, scope: Seq<char>)
    ensures
        super::span_line(span, service, scope, true) == in_style(35, "[trace]"@) + " "@
            + in_style(2, super::time_text(span.start_time_unix_nano)) + " service="@
            + in_style(1, crate::text::cleaned(service)) + " scope="@
            + crate::text::cleaned(scope) + " span="@
            + in_style(1, crate::text::cleaned(span.name@)) + " dur="@
            + super::number::duration_text(super::span_duration(span)) + " status="@
            + super::status_text(span.status_code, true) + " trace="@
            + super::id_text(span.trace_id@) + " span_id="@ + super::id_text(span.span_id@)
            + "\n"@,
{
    lemma_styles("[trace]"@);
    lemma_styles(super::time_text(span.start_time_unix_nano));
    lemma_styles(crate::text::cleaned(service));
    lemma_styles(crate::text::cleaned(span.name@));
    let p0 = Seq::<Seq<char>>::empty();
    let a0 = in_style(35, "[trace]"@);
    let p1 = p0.push(a0);
    lemma_glue(p0, a0);
    let a1 = " "@;
    let p2 = p1.push(a1);
    lemma_glue(p1, a1);
    let a2 = in_style(2, super::time_text(span.start_time_unix_nano));
    let p3 = p2.push(a2);
    lemma_glue(p2, a2);
    let a3 = " service="@;
    let p4 = p3.push(a3);
    lemma_glue(p3, a3);
    let a4 = in_style(1, crate::text::cleaned(service));
    let p5 = p4.push(a4);
    lemma_glue(p4, a4);
    let a5 = " scope="@;
    let p6 = p5.push(a5);
    lemma_glue(p5, a5);
    let a6 = crate::text::cleaned(scope);
    let p7 = p6.push(a6);
    lemma_glue(p6, a6);
    let a7 = " span="@;
    let p8 = p7.push(a7);
    lemma_glue(p7, a7);
    let a8 = in_style(1, crate::text::cleaned(span.name@));
    let p9 = p8.push(a8);
    lemma_glue(p8, a8);
    let a9 = " dur="@;
    let p10 = p9.push(a9);
    lemma_glue(p9, a9);
    let a10 = super::number::duration_text(super::span_duration(span));
    let p11 = p10.push(a10);
    lemma_glue(p10, a10);
    let a11 = " status="@;
    let p12 = p11.push(a11);
    lemma_glue(p11, a11);
    let a12 = super::status_text(span.status_code, true);
    let p13 = p12.push(a12);
    lemma_glue(p12, a12);
    let a13 = " trace="@;
    let p14 = p13.push(a13);
    lemma_glue(p13, a13);
    let a14 = super::id_text(span.trace_id@);
    let p15 = p14.push(a14);
    lemma_glue(p14, a14);
    let a15 = " span_id="@;
    let p16 = p15.push(a15);
    lemma_glue(p15, a15);
    let a16 = super::id_text(span.span_id@);
    let p17 = p16.push(a16);
    lemma_glue(p16, a16);
    let a17 = "\n"@;
    let p18 = p17.push(a17);
    lemma_glue(p17, a17);
    assert(crate::text::glued(p0) + a0 =~= a0);
    assert(p18
    =~= seq![a0, a1, a2, a3, a4, a5, a6, a7, a8, a9, a10, a11, a12, a13, a14, a15, a16, a17]);
    assert(crate::text::glued(p18) == super::span_line(span, service, scope, true));
}

/// In colour, the time of a span event is dim and its name bold.
pub proof fn law_colours_of_an_event(ev: Event)
    ensures
        super::event_line(ev, true) == "        "@ + in_style(2, "event @"@
            + super::time_text(ev.time_unix_nano)) + " "@
            + in_style(1, crate::text::cleaned(ev.name@)) + " "@
            + crate::text::cleaned(super::attrs_text(ev.attributes@)) + "\n"@,
{
    lemma_styles("event @"@ + super::time_text(ev.time_unix_nano));
    lemma_styles(crate::text::cleaned(ev.name@));
    let p0 = Seq::<Seq<char>>::empty();
    let a0 = "        "@;
    let p1 = p0.push(a0);
    lemma_glue(p0, a0);
    let a1 = in_style(2, "event @"@ + super::time_text(ev.time_unix_nano));
    let p2 = p1.push(a1);
    lemma_glue(p1, a1);
    let a2 = " "@;
    let p3 = p2.push(a2);
    lemma_glue(p2, a2);
    let a3 = in_style(1, crate::text::cleaned(ev.name@));
    let p4 = p3.push(a3);
    lemma_glue(p3, a3);
    let a4 = " "@;
    let p5 = p4.push(a4);
    lemma_glue(p4, a4);
    let a5 = crate::text::cleaned(super::attrs_text(ev.attributes@));
    let p6 = p5.push(a5);
    lemma_glue(p5, a5);
    let a6 = "\n"@;
    let p7 = p6.push(a6);
    lemma_glue(p6, a6);
    assert(crate::text::glued(p0) + a0 =~= a0);
    assert(p7 =~= seq![a0, a1, a2, a3, a4, a5, a6]);
    assert(crate::text::glued(p7) == super::event_line(ev, true));
}

/// In colour, the tag of a metric is cyan, its service and name bold, and its description
/// dim.
pub proof fn law_colours_of_a_metric(m: Metric, service: Seq<char>, scope: Seq<char>)
    ensures
        super::metric_line(m, service, scope, true) == in_style(36, "[metric]"@) + " service="@
            + in_style(1, crate::text::cleaned(service)) + " scope="@
            + crate::text::cleaned(scope) + " name="@ + in_style(1, crate::text::cleaned(m.name@))
            + super::unit_text(m.unit@) + " "@ + crate::text::cleaned(super::data_text(m.data))
            + " "@ + (if m.description@.len() == 0 { Seq::empty() } else { in_style(2, "("@
            + crate::text::cleaned(m.description@) + ")"@) }) + "\n"@,
{
    lemma_styles("[metric]"@);
    lemma_styles(crate::text::cleaned(service));
    lemma_styles(crate::text::cleaned(m.name@));
    lemma_styles("("@ + crate::text::cleaned(m.description@) + ")"@);
    let p0 = Seq::<Seq<char>>::empty();
    let a0 = in_style(36, "[metric]"@);
    let p1 = p0.push(a0);
    lemma_glue(p0, a0);
    let a1 = " service="@;
    let p2 = p1.push(a1);
    lemma_glue(p1, a1);
    let a2 = in_style(1, crate::text::cleaned(service));
    let p3 = p2.push(a2);
    lemma_glue(p2, a2);
    let a3 = " scope="@;
    let p4 = p3.push(a3);
    lemma_glue(p3, a3);
    let a4 = crate::text::cleaned(scope);
    let p5 = p4.push(a4);
    lemma_glue(p4, a4);
    let a5 = " name="@;
    let p6 = p5.push(a5);
    lemma_glue(p5, a5);
    let a6 = in_style(1, crate::text::cleaned(m.name@));
    let p7 = p6.push(a6);
    lemma_glue(p6, a6);
    let a7 = super::unit_text(m.unit@);
    let p8 = p7.push(a7);
    lemma_glue(p7, a7);
    let a8 = " "@;
    let p9 = p8.push(a8);
    lemma_glue(p8, a8);
    let a9 = crate::text::cleaned(super::data_text(m.data));
    let p10 = p9.push(a9);
    lemma_glue(p9, a9);
    let a10 = " "@;
    let p11 = p10.push(a10);
    lemma_glue(p10, a10);
    let a11 = if m.description@.len() == 0 { Seq::empty() } else { in_style(2, "("@
        + crate::text::cleaned(m.description@) + ")"@) };
    let p12 = p11.push(a11);
    lemma_glue(p11, a11);
    let a12 = "\n"@;
    let p13 = p12.push(a12);
    lemma_glue(p12, a12);
    assert(crate::text::glued(p0) + a0 =~= a0);
    assert(p13 =~= seq![a0, a1, a2, a3, a4, a5, a6, a7, a8, a9, a10, a11, a12]);
    assert(crate::text::glued(p13) == super::metric_line(m, service, scope, true));
}

/// In colour, the tag of a log record is yellow, its time dim and its service bold.
pub proof fn law_colours_of_a_log_record(log: LogRecord, service: Seq<char>, scope: Seq<char>)
    ensures
        super::log_line(log, service, scope, true) == in_style(33, "[log]"@) + " "@
            + in_style(2, super::time_text(log.time_unix_nano)) + " service="@
            + in_style(1, crate::text::cleaned(service)) + " scope="@
            + crate::text::cleaned(scope) + " severity="@
            + super::severity_shown(super::severity_text(log.severity_number, log.severity_text@), true)
            + " body="@ + crate::text::cleaned(super::quoted(super::body_text(log.body))) + "\n"@,
{
    lemma_styles("[log]"@);
    lemma_styles(super::time_text(log.time_unix_nano));
    lemma_styles(crate::text::cleaned(service));
    let p0 = Seq::<Seq<char>>::empty();
    let a0 = in_style(33, "[log]"@);
    let p1 = p0.push(a0);
    lemma_glue(p0, a0);
    let a1 = " "@;
    let p2 = p1.push(a1);
    lemma_glue(p1, a1);
    let a2 = in_style(2, super::time_text(log.time_unix_nano));
    let p3 = p2.push(a2);
    lemma_glue(p2, a2);
    let a3 = " service="@;
    let p4 = p3.push(a3);
    lemma_glue(p3, a3);
    let a4 = in_style(1, crate::text::cleaned(service));
    let p5 = p4.push(a4);
    lemma_glue(p4, a4);
    let a5 = " scope="@;
    let p6 = p5.push(a5);
    lemma_glue(p5, a5);
    let a6 = crate::text::cleaned(scope);
    let p7 = p6.push(a6);
    lemma_glue(p6, a6);
    let a7 = " severity="@;
    let p8 = p7.push(a7);
    lemma_glue(p7, a7);
    let a8 = super::severity_shown(super::severity_text(log.severity_number, log.severity_text@), true);
    let p9 = p8.push(a8);
    lemma_glue(p8, a8);
    let a9 = " body="@;
    let p10 = p9.push(a9);
    lemma_glue(p9, a9);
    let a10 = crate::text::cleaned(super::quoted(super::body_text(log.body)));
    let p11 = p10.push(a10);
    lemma_glue(p10, a10);
    let a11 = "\n"@;
    let p12 = p11.push(a11);
    lemma_glue(p11, a11);
    assert(crate::text::glued(p0) + a0 =~= a0);
    assert(p12 =~= seq![a0, a1, a2, a3, a4, a5, a6, a7, a8, a9, a10, a11]);
    assert(crate::text::glued(p12) == super::log_line(log, service, scope, true));
}

/// In colour, the tag of an agent is cyan, its number of requests bold, and since when they
/// count dim.
pub proof fn law_colours_of_a_total(agent: Seq<char>, total: ModelStats, since: Seq<char>)
    ensures
        super::total_line(agent, total, since, true) == in_style(36, "[stats:"@
            + crate::text::cleaned(agent) + "]"@) + " "@
            + super::counters_text(total, in_style(1, crate::text::decimal(total.request_count as nat)))
            + " since="@ + in_style(2, crate::text::cleaned(since)) + "\n"@,
{
    lemma_styles("[stats:"@ + crate::text::cleaned(agent) + "]"@);
    lemma_styles(crate::text::decimal(total.request_count as nat));
    lemma_styles(crate::text::cleaned(since));
    let p0 = Seq::<Seq<char>>::empty();
    let a0 = in_style(36, "[stats:"@ + crate::text::cleaned(agent) + "]"@);
    let p1 = p0.push(a0);
    lemma_glue(p0, a0);
    let a1 = " "@;
    let p2 = p1.push(a1);
    lemma_glue(p1, a1);
    let a2 = super::counters_text(total, in_style(1, crate::text::decimal(total.request_count as nat)));
    let p3 = p2.push(a2);
    lemma_glue(p2, a2);
    let a3 = " since="@;
    let p4 = p3.push(a3);
    lemma_glue(p3, a3);
    let a4 = in_style(2, crate::text::cleaned(since));
    let p5 = p4.push(a4);
    lemma_glue(p4, a4);
    let a5 = "\n"@;
    let p6 = p5.push(a5);
    lemma_glue(p5, a5);
    assert(crate::text::glued(p0) + a0 =~= a0);
    assert(p6 =~= seq![a0, a1, a2, a3, a4, a5]);
    assert(crate::text::glued(p6) == super::total_line(agent, total, since, true));
}

/// In colour, the tag of a bucket is dim, and its provider, model and effort bold.
pub proof fn law_colours_of_a_bucket(b: BucketStats)
    ensures
        super::bucket_line(b, true) == "        "@ + in_style(2, "breakdown"@) + " provider="@
            + in_style(1, crate::text::cleaned(b.provider@)) + " model="@
            + in_style(1, crate::text::cleaned(b.model@)) + " effort="@
            + in_style(1, crate::text::cleaned(b.effort@)) + ": "@
            + super::counters_text(b.stats, crate::text::decimal(b.stats.request_count as nat))
            + "\n"@,
{
    lemma_styles("breakdown"@);
    lemma_styles(crate::text::cleaned(b.provider@));
    lemma_styles(crate::text::cleaned(b.model@));
    lemma_styles(crate::text::cleaned(b.effort@));
    let p0 = Seq::<Seq<char>>::empty();
    let a0 = "        "@;
    let p1 = p0.push(a0);
    lemma_glue(p0, a0);
    let a1 = in_style(2, "breakdown"@);
    let p2 = p1.push(a1);
    lemma_glue(p1, a1);
    let a2 = " provider="@;
    let p3 = p2.push(a2);
    lemma_glue(p2, a2);
    let a3 = in_style(1, crate::text::cleaned(b.provider@));
    let p4 = p3.push(a3);
    lemma_glue(p3, a3);
    let a4 = " model="@;
    let p5 = p4.push(a4);
    lemma_glue(p4, a4);
    let a5 = in_style(1, crate::text::cleaned(b.model@));
    let p6 = p5.push(a5);
    lemma_glue(p5, a5);
    let a6 = " effort="@;
    let p7 = p6.push(a6);
    lemma_glue(p6, a6);
    let a7 = in_style(1, crate::text::cleaned(b.effort@));
    let p8 = p7.push(a7);
    lemma_glue(p7, a7);
    let a8 = ": "@;
    let p9 = p8.push(a8);
    lemma_glue(p8, a8);
    let a9 = super::counters_text(b.stats, crate::text::decimal(b.stats.request_count as nat));
    let p10 = p9.push(a9);
    lemma_glue(p9, a9);
    let a10 = "\n"@;
    let p11 = p10.push(a10);
    lemma_glue(p10, a10);
    assert(crate::text::glued(p0) + a0 =~= a0);
    assert(p11 =~= seq![a0, a1, a2, a3, a4, a5, a6, a7, a8, a9, a10]);
    assert(crate::text::glued(p11) == super::bucket_line(b, true));
}

/// The body of a log record is shown as its value.
pub proof fn law_bodies_are_shown_as_values(body: Option<AnyValue>)
    ensures
        body is None ==> super::body_text(body).len() == 0,
        body matches Some(v) ==> super::body_text(body) == super::value_text(v),
{
}

} // verus!
