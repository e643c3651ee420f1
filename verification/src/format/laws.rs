//! What holds of all text that is shown.

use super::Style;
use crate::aggregator::stats::ModelStats;
use crate::aggregator::{AgentStats, BucketStats};
use crate::otlp::{
    Event, KeyValue, LogRecord, Metric, ResourceLogs, ResourceMetrics, ResourceSpans,
    ScopeLogs, ScopeMetrics, ScopeSpans, Span,
};
use crate::table::Row;
use vstd::prelude::*;

verus! {

/// Whether a text holds no control character but line breaks.
pub open spec fn harmless(s: Seq<char>) -> bool {
    forall|i: int| 0 <= i < s.len() ==> !crate::text::control_char(#[trigger] s[i]) || s[i] == '\n'
}

/// Whether a text is one of the escape sequences that turn a style on or off.
pub open spec fn style_sequence(s: Seq<char>) -> bool {
    s == "\u{1b}[0m"@ || exists|style: Style| s == #[trigger] super::style_code(style)
}

/// Whether nothing in a text acts on the terminal but line breaks and, where
/// output is coloured, the escape sequences of the styles.
pub open spec fn tame(s: Seq<char>, color: bool) -> bool
    decreases s.len(),
{
    if s.len() == 0 {
        true
    } else if !crate::text::control_char(s[0]) || s[0] == '\n' {
        tame(s.skip(1), color)
    } else {
        ||| color && s.len() >= 4 && style_sequence(s.take(4)) && tame(s.skip(4), color)
        ||| color && s.len() >= 5 && style_sequence(s.take(5)) && tame(s.skip(5), color)
    }
}

pub(crate) open spec fn fine(s: Seq<char>, color: bool) -> bool {
    harmless(s) || tame(s, color)
}

pub(crate) proof fn lemma_tame(s: Seq<char>, color: bool)
    requires
        fine(s, color),
    ensures
        tame(s, color),
    decreases s.len(),
{
    if s.len() > 0 && harmless(s) {
        assert(!crate::text::control_char(s[0]) || s[0] == '\n');
        assert forall|i: int| 0 <= i < s.skip(1).len() implies !crate::text::control_char(
            #[trigger] s.skip(1)[i],
        ) || s.skip(1)[i] == '\n' by {
            assert(s.skip(1)[i] == s[i + 1]);
        }
        lemma_tame(s.skip(1), color);
    }
}

proof fn lemma_harmless(s: Seq<char>)
    requires
        tame(s, false),
    ensures
        harmless(s),
    decreases s.len(),
{
    if s.len() > 0 {
        lemma_harmless(s.skip(1));
        assert forall|i: int| 0 <= i < s.len() implies !crate::text::control_char(#[trigger] s[i])
            || s[i] == '\n' by {
            if i > 0 {
                assert(s.skip(1)[i - 1] == s[i]);
            }
        }
    }
}

pub(crate) proof fn lemma_tame_sum(a: Seq<char>, b: Seq<char>, color: bool)
    requires
        tame(a, color),
        tame(b, color),
    ensures
        tame(a + b, color),
    decreases a.len(),
{
    if a.len() == 0 {
        assert(a + b =~= b);
    } else if !crate::text::control_char(a[0]) || a[0] == '\n' {
        assert((a + b).skip(1) =~= a.skip(1) + b);
        lemma_tame_sum(a.skip(1), b, color);
    } else if a.len() >= 4 && style_sequence(a.take(4)) && tame(a.skip(4), color) {
        assert((a + b).take(4) =~= a.take(4));
        assert((a + b).skip(4) =~= a.skip(4) + b);
        lemma_tame_sum(a.skip(4), b, color);
    } else {
        assert((a + b).take(5) =~= a.take(5));
        assert((a + b).skip(5) =~= a.skip(5) + b);
        lemma_tame_sum(a.skip(5), b, color);
    }
}

proof fn lemma_fine_sum(a: Seq<char>, b: Seq<char>, color: bool)
    requires
        fine(a, color),
        fine(b, color),
    ensures
        tame(a + b, color),
{
    lemma_tame(a, color);
    lemma_tame(b, color);
    lemma_tame_sum(a, b, color);
}

pub(crate) proof fn lemma_codes()
    ensures
        forall|style: Style|
            4 <= (#[trigger] super::style_code(style)).len() <= 5 && super::style_code(style)[0]
                == '\u{1b}',
        "\u{1b}[0m"@.len() == 4,
        "\u{1b}[0m"@[0] == '\u{1b}',
{
    reveal_strlit("\u{1b}[0m");
    reveal_strlit("\u{1b}[1m");
    reveal_strlit("\u{1b}[2m");
    reveal_strlit("\u{1b}[31m");
    reveal_strlit("\u{1b}[32m");
    reveal_strlit("\u{1b}[33m");
    reveal_strlit("\u{1b}[34m");
    reveal_strlit("\u{1b}[35m");
    reveal_strlit("\u{1b}[36m");
}

pub(crate) proof fn lemma_style_sequence_is_tame(s: Seq<char>)
    requires
        style_sequence(s),
        4 <= s.len() <= 5,
    ensures
        tame(s, true),
{
    lemma_codes();
    assert(s[0] == '\u{1b}');
    assert(s.take(s.len() as int) =~= s);
    assert(s.skip(s.len() as int).len() == 0);
    assert(tame(s.skip(s.len() as int), true));
}

/// Harmless text in a style is fine.
proof fn lemma_painted(color: bool, style: Style, text: Seq<char>)
    requires
        harmless(text),
    ensures
        fine(super::painted(color, style, text), color),
{
    if color {
        lemma_codes();
        lemma_style_sequence_is_tame(super::style_code(style));
        lemma_style_sequence_is_tame("\u{1b}[0m"@);
        lemma_fine_sum(super::style_code(style), text, true);
        lemma_tame_sum(super::style_code(style) + text, "\u{1b}[0m"@, true);
    }
}

pub(crate) proof fn lemma_sum(a: Seq<char>, b: Seq<char>)
    requires
        harmless(a),
        harmless(b),
    ensures
        harmless(a + b),
{
    assert forall|i: int| 0 <= i < (a + b).len() implies !crate::text::control_char(
        #[trigger] (a + b)[i],
    ) || (a + b)[i] == '\n' by {
        if i < a.len() {
            assert((a + b)[i] == a[i]);
        } else {
            assert((a + b)[i] == b[i - a.len()]);
        }
    }
}

proof fn lemma_glued(parts: Seq<Seq<char>>, color: bool)
    requires
        forall|i: int| 0 <= i < parts.len() ==> fine(#[trigger] parts[i], color),
    ensures
        tame(crate::text::glued(parts), color),
    decreases parts.len(),
{
    if parts.len() > 0 {
        assert forall|i: int| 0 <= i < parts.drop_last().len() implies fine(
            #[trigger] parts.drop_last()[i],
            color,
        ) by {
            assert(fine(parts[i], color));
        }
        lemma_glued(parts.drop_last(), color);
        assert(fine(parts[parts.len() - 1], color));
        lemma_fine_sum(crate::text::glued(parts.drop_last()), parts.last(), color);
    }
}

pub(crate) proof fn lemma_cleaned(s: Seq<char>)
    ensures
        harmless(crate::text::cleaned(s)),
{
    crate::text::law_cleaned_is_printable(s);
    assert forall|i: int| 0 <= i < crate::text::cleaned(s).len() implies !crate::text::control_char(
        #[trigger] crate::text::cleaned(s)[i],
    ) || crate::text::cleaned(s)[i] == '\n' by {
        assert(!crate::text::control_char(crate::text::cleaned(s)[i]));
    }
}

proof fn lemma_digit(d: nat)
    requires
        d < 10,
    ensures
        !crate::text::control_char(crate::text::digit_char(d)),
{
}

proof fn lemma_push(s: Seq<char>, c: char)
    requires
        harmless(s),
        !crate::text::control_char(c),
    ensures
        harmless(s.push(c)),
{
    assert forall|i: int| 0 <= i < s.push(c).len() implies !crate::text::control_char(
        #[trigger] s.push(c)[i],
    ) || s.push(c)[i] == '\n' by {
        if i < s.len() {
            assert(s.push(c)[i] == s[i]);
        }
    }
}

pub(crate) proof fn lemma_decimal(n: nat)
    ensures
        harmless(crate::text::decimal(n)),
    decreases n,
{
    lemma_digit(n % 10);
    if n < 10 {
        lemma_digit(n);
    } else {
        lemma_decimal(n / 10);
        lemma_push(crate::text::decimal(n / 10), crate::text::digit_char(n % 10));
    }
}

proof fn lemma_padded(n: nat, places: nat)
    ensures
        harmless(super::number::padded(n, places)),
    decreases places,
{
    if places > 0 {
        lemma_padded(n / 10, (places - 1) as nat);
        lemma_digit(n % 10);
        lemma_push(super::number::padded(n / 10, (places - 1) as nat), crate::text::digit_char(n % 10));
    }
}

proof fn lemma_with_point(n: nat, scale: nat, places: nat)
    ensures
        harmless(super::number::with_point(n, scale, places)),
{
    lemma_decimal(n / scale);
    lemma_padded(n, places);
    assert(harmless(seq!['.']));
    lemma_sum(crate::text::decimal(n / scale), seq!['.']);
    lemma_sum(crate::text::decimal(n / scale) + seq!['.'], super::number::padded(n, places));
}

proof fn lemma_hex_char(d: int)
    requires
        0 <= d < 16,
    ensures
        !crate::text::control_char(crate::text::hex_char(d)),
{
}

pub(crate) proof fn lemma_hex(bytes: Seq<u8>)
    ensures
        harmless(crate::text::hex_of(bytes)),
    decreases bytes.len(),
{
    if bytes.len() > 0 {
        lemma_hex(bytes.drop_last());
        let front = crate::text::hex_of(bytes.drop_last());
        let b = bytes.last() as int;
        lemma_hex_char(b / 16);
        lemma_hex_char(b % 16);
        lemma_push(front, crate::text::hex_char(b / 16));
        lemma_push(front.push(crate::text::hex_char(b / 16)), crate::text::hex_char(b % 16));
    }
}

pub(crate) proof fn lemma_words()
    ensures
        harmless("-"@),
        harmless("ns"@),
        harmless("\u{b5}s"@),
        harmless("ms"@),
        harmless("s"@),
        harmless("$0"@),
        harmless("$"@),
        harmless("        "@),
        harmless("attrs:"@),
        harmless(" "@),
        harmless("\n"@),
        harmless("OK"@),
        harmless("ERROR"@),
        harmless("UNSET"@),
        harmless("event @"@),
        harmless("("@),
        harmless(")"@),
        harmless(": "@),
        harmless("]"@),
{
    reveal_strlit("-");
    reveal_strlit("ns");
    reveal_strlit("\u{b5}s");
    reveal_strlit("ms");
    reveal_strlit("s");
    reveal_strlit("$0");
    reveal_strlit("$");
    reveal_strlit("        ");
    reveal_strlit("attrs:");
    reveal_strlit(" ");
    reveal_strlit("\n");
    reveal_strlit("OK");
    reveal_strlit("ERROR");
    reveal_strlit("UNSET");
    reveal_strlit("event @");
    reveal_strlit("(");
    reveal_strlit(")");
    reveal_strlit(": ");
    reveal_strlit("]");
}

pub(crate) proof fn lemma_labels()
    ensures
        harmless("[trace]"@),
        harmless("[metric]"@),
        harmless("[log]"@),
        harmless(" service="@),
        harmless(" scope="@),
        harmless(" span="@),
        harmless(" dur="@),
        harmless(" status="@),
        harmless(" trace="@),
        harmless(" span_id="@),
        harmless(" name="@),
        harmless(" unit="@),
        harmless(" severity="@),
        harmless(" body="@),
{
    reveal_strlit("[trace]");
    reveal_strlit("[metric]");
    reveal_strlit("[log]");
    reveal_strlit(" service=");
    reveal_strlit(" scope=");
    reveal_strlit(" span=");
    reveal_strlit(" dur=");
    reveal_strlit(" status=");
    reveal_strlit(" trace=");
    reveal_strlit(" span_id=");
    reveal_strlit(" name=");
    reveal_strlit(" unit=");
    reveal_strlit(" severity=");
    reveal_strlit(" body=");
}

pub(crate) proof fn lemma_total_labels()
    ensures
        harmless("[stats:"@),
        harmless("requests="@),
        harmless(" input="@),
        harmless(" output="@),
        harmless(" cache_read="@),
        harmless(" cache_create="@),
        harmless(" reasoning="@),
        harmless(" cost="@),
        harmless(" duration="@),
        harmless(" since="@),
        harmless("breakdown"@),
        harmless(" provider="@),
        harmless(" model="@),
        harmless(" effort="@),
{
    reveal_strlit("[stats:");
    reveal_strlit("requests=");
    reveal_strlit(" input=");
    reveal_strlit(" output=");
    reveal_strlit(" cache_read=");
    reveal_strlit(" cache_create=");
    reveal_strlit(" reasoning=");
    reveal_strlit(" cost=");
    reveal_strlit(" duration=");
    reveal_strlit(" since=");
    reveal_strlit("breakdown");
    reveal_strlit(" provider=");
    reveal_strlit(" model=");
    reveal_strlit(" effort=");
}

pub(crate) proof fn lemma_duration(ns: nat)
    ensures
        harmless(super::number::duration_text(ns)),
{
    lemma_words();
    lemma_decimal(ns);
    lemma_sum(crate::text::decimal(ns), "ns"@);
    let us = super::number::with_point(super::number::double_ratio(ns, 1_000, 100), 100, 2);
    let ms = super::number::with_point(super::number::double_ratio(ns, 1_000_000, 100), 100, 2);
    let s = super::number::with_point(super::number::double_ratio(ns, 1_000_000_000, 1_000), 1_000, 3);
    lemma_with_point(super::number::double_ratio(ns, 1_000, 100), 100, 2);
    lemma_with_point(super::number::double_ratio(ns, 1_000_000, 100), 100, 2);
    lemma_with_point(super::number::double_ratio(ns, 1_000_000_000, 1_000), 1_000, 3);
    lemma_sum(us, "\u{b5}s"@);
    lemma_sum(ms, "ms"@);
    lemma_sum(s, "s"@);
}

pub(crate) proof fn lemma_cost(c: crate::double::Usd)
    ensures
        harmless(super::number::cost_text(c)),
{
    lemma_words();
    let six = super::number::with_point(
        super::number::rounded(c.units as nat * 1_000_000, crate::double::UNITS_PER_DOLLAR as nat),
        1_000_000,
        6,
    );
    let four = super::number::with_point(
        super::number::rounded(c.units as nat * 10_000, crate::double::UNITS_PER_DOLLAR as nat),
        10_000,
        4,
    );
    lemma_with_point(
        super::number::rounded(c.units as nat * 1_000_000, crate::double::UNITS_PER_DOLLAR as nat),
        1_000_000,
        6,
    );
    lemma_with_point(
        super::number::rounded(c.units as nat * 10_000, crate::double::UNITS_PER_DOLLAR as nat),
        10_000,
        4,
    );
    lemma_sum("$"@, six);
    lemma_sum("$"@, four);
}

pub(crate) proof fn lemma_time(nanos: u64)
    ensures
        harmless(super::time_text(nanos)),
{
    lemma_words();
    lemma_decimal(nanos as nat);
    match crate::clock::rfc3339_of(nanos as int) {
        Some(t) => lemma_cleaned(t),
        None => {},
    }
}

proof fn lemma_attrs_line(attrs: Seq<KeyValue>, color: bool)
    ensures
        tame(super::attrs_line(attrs, color), color),
{
    lemma_words();
    lemma_cleaned(super::attrs_text(attrs));
    lemma_painted(color, Style::Dim, "attrs:"@);
    lemma_glued(
        seq![
            "        "@,
            super::painted(color, Style::Dim, "attrs:"@),
            " "@,
            crate::text::cleaned(super::attrs_text(attrs)),
            "\n"@,
        ],
        color,
    );
}

proof fn lemma_status(code: i32, color: bool)
    ensures
        fine(super::status_text(code, color), color),
{
    lemma_words();
    lemma_painted(color, Style::Green, "OK"@);
    lemma_painted(color, Style::Red, "ERROR"@);
    lemma_painted(color, Style::Dim, "UNSET"@);
}

proof fn lemma_span_line(span: Span, service: Seq<char>, scope: Seq<char>, color: bool)
    ensures
        tame(super::span_line(span, service, scope, color), color),
{
    lemma_words();
    lemma_labels();
    lemma_time(span.start_time_unix_nano);
    lemma_cleaned(service);
    lemma_cleaned(scope);
    lemma_cleaned(span.name@);
    lemma_duration(super::span_duration(span));
    lemma_hex(span.trace_id@);
    lemma_hex(span.span_id@);
    lemma_status(span.status_code, color);
    lemma_painted(color, Style::Magenta, "[trace]"@);
    lemma_painted(color, Style::Dim, super::time_text(span.start_time_unix_nano));
    lemma_painted(color, Style::Bold, crate::text::cleaned(service));
    lemma_painted(color, Style::Bold, crate::text::cleaned(span.name@));
    lemma_glued(
        seq![
            super::painted(color, Style::Magenta, "[trace]"@),
            " "@,
            super::painted(color, Style::Dim, super::time_text(span.start_time_unix_nano)),
            " service="@,
            super::painted(color, Style::Bold, crate::text::cleaned(service)),
            " scope="@,
            crate::text::cleaned(scope),
            " span="@,
            super::painted(color, Style::Bold, crate::text::cleaned(span.name@)),
            " dur="@,
            super::number::duration_text(super::span_duration(span)),
            " status="@,
            super::status_text(span.status_code, color),
            " trace="@,
            super::id_text(span.trace_id@),
            " span_id="@,
            super::id_text(span.span_id@),
            "\n"@,
        ],
        color,
    );
}

proof fn lemma_event_lines(events: Seq<Event>, color: bool)
    ensures
        tame(super::event_lines(events, color), color),
    decreases events.len(),
{
    if events.len() > 0 {
        lemma_event_lines(events.drop_last(), color);
        let ev = events.last();
        let at = "event @"@ + super::time_text(ev.time_unix_nano);
        lemma_words();
        lemma_time(ev.time_unix_nano);
        lemma_cleaned(ev.name@);
        lemma_cleaned(super::attrs_text(ev.attributes@));
        lemma_sum("event @"@, super::time_text(ev.time_unix_nano));
        lemma_painted(color, Style::Dim, at);
        lemma_painted(color, Style::Bold, crate::text::cleaned(ev.name@));
        lemma_glued(
            seq![
                "        "@,
                super::painted(color, Style::Dim, at),
                " "@,
                super::painted(color, Style::Bold, crate::text::cleaned(ev.name@)),
                " "@,
                crate::text::cleaned(super::attrs_text(ev.attributes@)),
                "\n"@,
            ],
            color,
        );
        lemma_tame_sum(
            super::event_lines(events.drop_last(), color),
            super::event_line(ev, color),
            color,
        );
    }
}

proof fn lemma_spans(spans: Seq<Span>, service: Seq<char>, scope: Seq<char>, color: bool)
    ensures
        tame(super::spans_text(spans, service, scope, color), color),
    decreases spans.len(),
{
    if spans.len() > 0 {
        lemma_spans(spans.drop_last(), service, scope, color);
        let span = spans.last();
        lemma_span_line(span, service, scope, color);
        lemma_attrs_line(span.attributes@, color);
        lemma_event_lines(span.events@, color);
        let a = super::span_line(span, service, scope, color);
        let b = super::attrs_line(span.attributes@, color);
        lemma_tame_sum(a, b, color);
        lemma_tame_sum(a + b, super::event_lines(span.events@, color), color);
        lemma_tame_sum(
            super::spans_text(spans.drop_last(), service, scope, color),
            super::span_lines(span, service, scope, color),
            color,
        );
    }
}

proof fn lemma_scope_spans(scopes: Seq<ScopeSpans>, service: Seq<char>, color: bool)
    ensures
        tame(super::scope_spans_text(scopes, service, color), color),
    decreases scopes.len(),
{
    if scopes.len() > 0 {
        lemma_scope_spans(scopes.drop_last(), service, color);
        let s = scopes.last();
        lemma_spans(s.spans@, service, s.scope@, color);
        lemma_tame_sum(
            super::scope_spans_text(scopes.drop_last(), service, color),
            super::spans_text(s.spans@, service, s.scope@, color),
            color,
        );
    }
}

proof fn lemma_traces(resources: Seq<ResourceSpans>, color: bool)
    ensures
        tame(super::traces_text(resources, color), color),
    decreases resources.len(),
{
    if resources.len() > 0 {
        lemma_traces(resources.drop_last(), color);
        let r = resources.last();
        let service = super::service_text(r.resource);
        lemma_scope_spans(r.scope_spans@, service, color);
        lemma_tame_sum(
            super::traces_text(resources.drop_last(), color),
            super::scope_spans_text(r.scope_spans@, service, color),
            color,
        );
    }
}

proof fn lemma_description(description: Seq<char>, color: bool)
    ensures
        fine(super::description_text(description, color), color),
{
    let shown = crate::text::cleaned(description);
    lemma_words();
    lemma_cleaned(description);
    lemma_sum("("@, shown);
    lemma_sum("("@ + shown, ")"@);
    lemma_painted(color, Style::Dim, "("@ + shown + ")"@);
}

proof fn lemma_metric_line(m: Metric, service: Seq<char>, scope: Seq<char>, color: bool)
    ensures
        tame(super::metric_line(m, service, scope, color), color),
{
    lemma_words();
    lemma_labels();
    lemma_cleaned(service);
    lemma_cleaned(scope);
    lemma_cleaned(m.name@);
    lemma_cleaned(m.unit@);
    lemma_sum(" unit="@, crate::text::cleaned(m.unit@));
    lemma_cleaned(super::data_text(m.data));
    lemma_description(m.description@, color);
    lemma_painted(color, Style::Cyan, "[metric]"@);
    lemma_painted(color, Style::Bold, crate::text::cleaned(service));
    lemma_painted(color, Style::Bold, crate::text::cleaned(m.name@));
    lemma_glued(
        seq![
            super::painted(color, Style::Cyan, "[metric]"@),
            " service="@,
            super::painted(color, Style::Bold, crate::text::cleaned(service)),
            " scope="@,
            crate::text::cleaned(scope),
            " name="@,
            super::painted(color, Style::Bold, crate::text::cleaned(m.name@)),
            super::unit_text(m.unit@),
            " "@,
            crate::text::cleaned(super::data_text(m.data)),
            " "@,
            super::description_text(m.description@, color),
            "\n"@,
        ],
        color,
    );
}

proof fn lemma_metric_lines(
    metrics: Seq<Metric>,
    service: Seq<char>,
    scope: Seq<char>,
    color: bool,
)
    ensures
        tame(super::metric_lines(metrics, service, scope, color), color),
    decreases metrics.len(),
{
    if metrics.len() > 0 {
        lemma_metric_lines(metrics.drop_last(), service, scope, color);
        lemma_metric_line(metrics.last(), service, scope, color);
        lemma_tame_sum(
            super::metric_lines(metrics.drop_last(), service, scope, color),
            super::metric_line(metrics.last(), service, scope, color),
            color,
        );
    }
}

proof fn lemma_scope_metrics(scopes: Seq<ScopeMetrics>, service: Seq<char>, color: bool)
    ensures
        tame(super::scope_metrics_text(scopes, service, color), color),
    decreases scopes.len(),
{
    if scopes.len() > 0 {
        lemma_scope_metrics(scopes.drop_last(), service, color);
        let s = scopes.last();
        lemma_metric_lines(s.metrics@, service, s.scope@, color);
        lemma_tame_sum(
            super::scope_metrics_text(scopes.drop_last(), service, color),
            super::metric_lines(s.metrics@, service, s.scope@, color),
            color,
        );
    }
}

proof fn lemma_metrics(resources: Seq<ResourceMetrics>, color: bool)
    ensures
        tame(super::metrics_text(resources, color), color),
    decreases resources.len(),
{
    if resources.len() > 0 {
        lemma_metrics(resources.drop_last(), color);
        let r = resources.last();
        let service = super::service_text(r.resource);
        lemma_scope_metrics(r.scope_metrics@, service, color);
        lemma_tame_sum(
            super::metrics_text(resources.drop_last(), color),
            super::scope_metrics_text(r.scope_metrics@, service, color),
            color,
        );
    }
}

proof fn lemma_severity(severity: Seq<char>, color: bool)
    ensures
        fine(super::severity_shown(severity, color), color),
{
    let shown = crate::text::cleaned(severity);
    lemma_cleaned(severity);
    lemma_painted(color, Style::Red, shown);
    lemma_painted(color, Style::Yellow, shown);
    lemma_painted(color, Style::Green, shown);
    lemma_painted(color, Style::Blue, shown);
    lemma_painted(color, Style::Magenta, shown);
}

proof fn lemma_log_line(log: LogRecord, service: Seq<char>, scope: Seq<char>, color: bool)
    ensures
        tame(super::log_line(log, service, scope, color), color),
{
    let severity = super::severity_text(log.severity_number, log.severity_text@);
    let body = super::quoted(super::body_text(log.body));
    lemma_words();
    lemma_labels();
    lemma_time(log.time_unix_nano);
    lemma_cleaned(service);
    lemma_cleaned(scope);
    lemma_severity(severity, color);
    lemma_cleaned(body);
    lemma_painted(color, Style::Yellow, "[log]"@);
    lemma_painted(color, Style::Dim, super::time_text(log.time_unix_nano));
    lemma_painted(color, Style::Bold, crate::text::cleaned(service));
    lemma_glued(
        seq![
            super::painted(color, Style::Yellow, "[log]"@),
            " "@,
            super::painted(color, Style::Dim, super::time_text(log.time_unix_nano)),
            " service="@,
            super::painted(color, Style::Bold, crate::text::cleaned(service)),
            " scope="@,
            crate::text::cleaned(scope),
            " severity="@,
            super::severity_shown(severity, color),
            " body="@,
            crate::text::cleaned(body),
            "\n"@,
        ],
        color,
    );
}

proof fn lemma_log_lines(logs: Seq<LogRecord>, service: Seq<char>, scope: Seq<char>, color: bool)
    ensures
        tame(super::log_lines(logs, service, scope, color), color),
    decreases logs.len(),
{
    if logs.len() > 0 {
        lemma_log_lines(logs.drop_last(), service, scope, color);
        let log = logs.last();
        lemma_log_line(log, service, scope, color);
        lemma_attrs_line(log.attributes@, color);
        let a = super::log_lines(logs.drop_last(), service, scope, color);
        let b = super::log_line(log, service, scope, color);
        lemma_tame_sum(a, b, color);
        lemma_tame_sum(a + b, super::attrs_line(log.attributes@, color), color);
    }
}

proof fn lemma_scope_logs(scopes: Seq<ScopeLogs>, service: Seq<char>, color: bool)
    ensures
        tame(super::scope_logs_text(scopes, service, color), color),
    decreases scopes.len(),
{
    if scopes.len() > 0 {
        lemma_scope_logs(scopes.drop_last(), service, color);
        let s = scopes.last();
        lemma_log_lines(s.log_records@, service, s.scope@, color);
        lemma_tame_sum(
            super::scope_logs_text(scopes.drop_last(), service, color),
            super::log_lines(s.log_records@, service, s.scope@, color),
            color,
        );
    }
}

proof fn lemma_logs(resources: Seq<ResourceLogs>, color: bool)
    ensures
        tame(super::logs_text(resources, color), color),
    decreases resources.len(),
{
    if resources.len() > 0 {
        lemma_logs(resources.drop_last(), color);
        let r = resources.last();
        let service = super::service_text(r.resource);
        lemma_scope_logs(r.scope_logs@, service, color);
        lemma_tame_sum(
            super::logs_text(resources.drop_last(), color),
            super::scope_logs_text(r.scope_logs@, service, color),
            color,
        );
    }
}

/// Whatever telemetry holds, nothing of it acts on the terminal: its text holds
/// no control characters but the line breaks between lines and, where output is
/// coloured, the escape sequences of the styles.
pub proof fn law_payloads_cannot_steer_the_terminal(record: super::TelemetryRecord, color: bool)
    ensures
        tame(super::record_text(record, color), color),
        !color ==> harmless(super::record_text(record, color)),
{
    match record {
        super::TelemetryRecord::Traces(req) => lemma_traces(req.resource_spans@, color),
        super::TelemetryRecord::Metrics(req) => lemma_metrics(req.resource_metrics@, color),
        super::TelemetryRecord::Logs(req) => lemma_logs(req.resource_logs@, color),
    }
    if !color {
        lemma_harmless(super::record_text(record, color));
    }
}

proof fn lemma_counters(s: ModelStats, requests: Seq<char>, color: bool)
    requires
        fine(requests, color),
    ensures
        tame(super::counters_text(s, requests), color),
{
    lemma_total_labels();
    lemma_decimal(s.input_tokens as nat);
    lemma_decimal(s.output_tokens as nat);
    lemma_decimal(s.cache_read_tokens as nat);
    lemma_decimal(s.cache_creation_tokens as nat);
    lemma_decimal(s.reasoning_output_tokens as nat);
    lemma_cost(s.cost_usd);
    lemma_duration(super::as_nanos(s.duration_ms));
    lemma_glued(
        seq![
            "requests="@,
            requests,
            " input="@,
            crate::text::decimal(s.input_tokens as nat),
            " output="@,
            crate::text::decimal(s.output_tokens as nat),
            " cache_read="@,
            crate::text::decimal(s.cache_read_tokens as nat),
            " cache_create="@,
            crate::text::decimal(s.cache_creation_tokens as nat),
            " reasoning="@,
            crate::text::decimal(s.reasoning_output_tokens as nat),
            " cost="@,
            super::number::cost_text(s.cost_usd),
            " duration="@,
            super::number::duration_text(super::as_nanos(s.duration_ms)),
        ],
        color,
    );
}

proof fn lemma_bucket_lines(rows: Seq<Row<String, BucketStats>>, color: bool)
    ensures
        tame(super::bucket_lines(rows, color), color),
    decreases rows.len(),
{
    if rows.len() > 0 {
        lemma_bucket_lines(rows.drop_last(), color);
        let b = rows.last().value;
        let requests = crate::text::decimal(b.stats.request_count as nat);
        lemma_words();
        lemma_total_labels();
        lemma_cleaned(b.provider@);
        lemma_cleaned(b.model@);
        lemma_cleaned(b.effort@);
        lemma_decimal(b.stats.request_count as nat);
        lemma_counters(b.stats, requests, color);
        lemma_painted(color, Style::Dim, "breakdown"@);
        lemma_painted(color, Style::Bold, crate::text::cleaned(b.provider@));
        lemma_painted(color, Style::Bold, crate::text::cleaned(b.model@));
        lemma_painted(color, Style::Bold, crate::text::cleaned(b.effort@));
        lemma_glued(
            seq![
                "        "@,
                super::painted(color, Style::Dim, "breakdown"@),
                " provider="@,
                super::painted(color, Style::Bold, crate::text::cleaned(b.provider@)),
                " model="@,
                super::painted(color, Style::Bold, crate::text::cleaned(b.model@)),
                " effort="@,
                super::painted(color, Style::Bold, crate::text::cleaned(b.effort@)),
                ": "@,
                super::counters_text(b.stats, requests),
                "\n"@,
            ],
            color,
        );
        lemma_tame_sum(
            super::bucket_lines(rows.drop_last(), color),
            super::bucket_line(b, color),
            color,
        );
    }
}

proof fn lemma_agent_lines(rows: Seq<Row<String, AgentStats>>, since: Seq<char>, color: bool)
    ensures
        tame(super::agent_lines(rows, since, color), color),
    decreases rows.len(),
{
    if rows.len() > 0 {
        lemma_agent_lines(rows.drop_last(), since, color);
        let a = rows.last();
        let total = a.value.total;
        let tag = "[stats:"@ + crate::text::cleaned(a.key@) + "]"@;
        let requests = super::painted(
            color,
            Style::Bold,
            crate::text::decimal(total.request_count as nat),
        );
        lemma_words();
        lemma_total_labels();
        lemma_cleaned(a.key@);
        lemma_cleaned(since);
        lemma_decimal(total.request_count as nat);
        lemma_painted(color, Style::Bold, crate::text::decimal(total.request_count as nat));
        lemma_counters(total, requests, color);
        lemma_sum("[stats:"@, crate::text::cleaned(a.key@));
        lemma_sum("[stats:"@ + crate::text::cleaned(a.key@), "]"@);
        lemma_painted(color, Style::Cyan, tag);
        lemma_painted(color, Style::Dim, crate::text::cleaned(since));
        lemma_glued(
            seq![
                super::painted(color, Style::Cyan, tag),
                " "@,
                super::counters_text(total, requests),
                " since="@,
                super::painted(color, Style::Dim, crate::text::cleaned(since)),
                "\n"@,
            ],
            color,
        );
        lemma_bucket_lines(a.value.buckets.spec_rows(), color);
        let front = super::agent_lines(rows.drop_last(), since, color);
        let line = super::total_line(a.key@, total, since, color);
        lemma_tame_sum(front, line, color);
        lemma_tame_sum(
            front + line,
            super::bucket_lines(a.value.buckets.spec_rows(), color),
            color,
        );
    }
}

/// The same holds of the totals, whose labels come out of telemetry.
pub proof fn law_labels_cannot_steer_the_terminal(
    rows: Seq<Row<String, AgentStats>>,
    since: Seq<char>,
    color: bool,
)
    ensures
        tame(super::agent_lines(rows, since, color), color),
        !color ==> harmless(super::agent_lines(rows, since, color)),
{
    lemma_agent_lines(rows, since, color);
    if !color {
        lemma_harmless(super::agent_lines(rows, since, color));
    }
}

} // verus!
