//! Colour changes nothing but the colour.

use super::Style;
use crate::aggregator::stats::ModelStats;
use crate::aggregator::{AgentStats, BucketStats};
use crate::otlp::{
    Event, KeyValue, LogRecord, Metric, ResourceLogs, ResourceMetrics, ResourceSpans, ScopeLogs,
    ScopeMetrics, ScopeSpans, Span,
};
use crate::table::Row;
use vstd::prelude::*;

verus! {

/// Where the decimal digits from `from` on end.
pub open spec fn digits_end(s: Seq<char>, from: int) -> int
    decreases s.len() - from,
{
    if from < s.len() && '0' <= s[from] && s[from] <= '9' {
        digits_end(s, from + 1)
    } else {
        from
    }
}

/// How long the colour code is that a text begins with: an escape character, a
/// bracket, digits and the letter `m`; nothing where it begins with none.
pub open spec fn code_length(s: Seq<char>) -> int {
    let end = digits_end(s, 2);
    if s.len() >= 2 && s[0] == '\u{1b}' && s[1] == '[' && end < s.len() && s[end] == 'm' {
        end + 1
    } else {
        0
    }
}

/// A text with every colour code deleted.
pub open spec fn without_colors(s: Seq<char>) -> Seq<char>
    decreases s.len(),
    via without_colors_ends
{
    if s.len() == 0 {
        s
    } else if code_length(s) > 0 {
        without_colors(s.skip(code_length(s)))
    } else {
        seq![s[0]] + without_colors(s.skip(1))
    }
}

#[via_fn]
proof fn without_colors_ends(s: Seq<char>) {
    lemma_digits_end(s, 2);
}

proof fn lemma_digits_end(s: Seq<char>, from: int)
    ensures
        from <= digits_end(s, from),
        from <= s.len() ==> digits_end(s, from) <= s.len(),
    decreases s.len() - from,
{
    if from < s.len() && '0' <= s[from] && s[from] <= '9' {
        lemma_digits_end(s, from + 1);
    }
}

/// Whether a text is coloured, and another is the same without the colours.
spec fn colors(a: Seq<char>, b: Seq<char>) -> bool {
    super::laws::tame(a, true) && without_colors(a) == b
}

/// The same of parts: a part without colours is its own.
spec fn part_of(a: Seq<char>, b: Seq<char>) -> bool {
    colors(a, b) || (a == b && super::laws::harmless(a))
}

/// Colour codes are what turns a style on or off.
proof fn lemma_style_code(s: Seq<char>, rest: Seq<char>)
    requires
        super::laws::style_sequence(s),
    ensures
        4 <= s.len() <= 5,
        code_length(s + rest) == s.len(),
{
    reveal_strlit("\u{1b}[0m");
    reveal_strlit("\u{1b}[1m");
    reveal_strlit("\u{1b}[2m");
    reveal_strlit("\u{1b}[31m");
    reveal_strlit("\u{1b}[32m");
    reveal_strlit("\u{1b}[33m");
    reveal_strlit("\u{1b}[34m");
    reveal_strlit("\u{1b}[35m");
    reveal_strlit("\u{1b}[36m");
    let t = s + rest;
    assert(t[0] == s[0] && t[1] == s[1] && t[2] == s[2] && t[3] == s[3]);
    if s.len() == 5 {
        assert(t[4] == s[4]);
    }
    reveal_with_fuel(digits_end, 4);
}

/// Deleting colour codes of two texts is deleting those of both together.
proof fn lemma_without_colors_sum(a: Seq<char>, b: Seq<char>)
    requires
        super::laws::tame(a, true),
    ensures
        without_colors(a + b) == without_colors(a) + without_colors(b),
    decreases a.len(),
{
    let t = a + b;
    if a.len() == 0 {
        assert(t =~= b);
        assert(without_colors(a) + without_colors(b) =~= without_colors(b));
    } else if !crate::text::control_char(a[0]) || a[0] == '\n' {
        assert(t.skip(1) =~= a.skip(1) + b);
        lemma_without_colors_sum(a.skip(1), b);
        assert(without_colors(t) =~= without_colors(a) + without_colors(b));
    } else {
        let n: int = if super::laws::style_sequence(a.take(4)) && super::laws::tame(
            a.skip(4),
            true,
        ) && a.len() >= 4 {
            4
        } else {
            5
        };
        let code = a.take(n);
        lemma_style_code(code, a.skip(n));
        lemma_style_code(code, a.skip(n) + b);
        assert(code + a.skip(n) =~= a);
        assert(code + (a.skip(n) + b) =~= t);
        assert(t.skip(n) =~= a.skip(n) + b);
        lemma_without_colors_sum(a.skip(n), b);
    }
}

/// A text without control characters has no colour codes.
proof fn lemma_plain(s: Seq<char>)
    requires
        super::laws::harmless(s),
    ensures
        colors(s, s),
    decreases s.len(),
{
    super::laws::lemma_tame(s, true);
    if s.len() > 0 {
        assert(!crate::text::control_char(s[0]) || s[0] == '\n');
        assert forall|i: int| 0 <= i < s.skip(1).len() implies !crate::text::control_char(
            #[trigger] s.skip(1)[i],
        ) || s.skip(1)[i] == '\n' by {
            assert(s.skip(1)[i] == s[i + 1]);
        }
        lemma_plain(s.skip(1));
        assert(seq![s[0]] + s.skip(1) =~= s);
    }
}

proof fn lemma_parts(a: Seq<char>, b: Seq<char>)
    requires
        part_of(a, b),
    ensures
        colors(a, b),
{
    if a == b && super::laws::harmless(a) {
        lemma_plain(a);
    }
}

proof fn lemma_colors_sum(a: Seq<char>, b: Seq<char>, c: Seq<char>, d: Seq<char>)
    requires
        part_of(a, b),
        part_of(c, d),
    ensures
        colors(a + c, b + d),
{
    lemma_parts(a, b);
    lemma_parts(c, d);
    super::laws::lemma_tame_sum(a, c, true);
    lemma_without_colors_sum(a, c);
}

proof fn lemma_code_is_nothing(s: Seq<char>)
    requires
        super::laws::style_sequence(s),
    ensures
        colors(s, Seq::empty()),
{
    lemma_style_code(s, Seq::empty());
    super::laws::lemma_style_sequence_is_tame(s);
    assert(s + Seq::<char>::empty() =~= s);
    assert(s.skip(s.len() as int) =~= Seq::<char>::empty());
    assert(without_colors(Seq::<char>::empty()) =~= Seq::<char>::empty());
    assert(without_colors(s) == without_colors(s.skip(code_length(s))));
}

proof fn lemma_painted(style: Style, text: Seq<char>)
    requires
        super::laws::harmless(text),
    ensures
        part_of(super::painted(true, style, text), super::painted(false, style, text)),
{
    let on = super::style_code(style);
    let off = "\u{1b}[0m"@;
    let none = Seq::<char>::empty();
    lemma_code_is_nothing(on);
    lemma_code_is_nothing(off);
    lemma_colors_sum(on, none, text, text);
    lemma_colors_sum(on + text, none + text, off, none);
    assert(none + text + none =~= text);
}

proof fn lemma_glued(a: Seq<Seq<char>>, b: Seq<Seq<char>>)
    requires
        a.len() == b.len(),
        forall|i: int| 0 <= i < a.len() ==> part_of(#[trigger] a[i], b[i]),
    ensures
        colors(crate::text::glued(a), crate::text::glued(b)),
    decreases a.len(),
{
    if a.len() > 0 {
        assert forall|i: int| 0 <= i < a.drop_last().len() implies part_of(
            #[trigger] a.drop_last()[i],
            b.drop_last()[i],
        ) by {
            assert(part_of(a[i], b[i]));
        }
        lemma_glued(a.drop_last(), b.drop_last());
        assert(part_of(a[a.len() - 1], b[b.len() - 1]));
        lemma_colors_sum(
            crate::text::glued(a.drop_last()),
            crate::text::glued(b.drop_last()),
            a.last(),
            b.last(),
        );
    } else {
        lemma_plain(Seq::empty());
    }
}

proof fn lemma_attrs_line(attrs: Seq<KeyValue>)
    ensures
        colors(
            super::attrs_line(attrs, true),
            super::attrs_line(attrs, false),
        ),
{
    if attrs.len() == 0 {
        lemma_plain(Seq::empty());
    } else {
        super::laws::lemma_words();
        super::laws::lemma_cleaned(super::attrs_text(attrs));
        lemma_painted(Style::Dim, "attrs:"@);
        lemma_glued(
            seq![
                "        "@,
                super::painted(true, Style::Dim, "attrs:"@),
                " "@,
                crate::text::cleaned(super::attrs_text(attrs)),
                "\n"@,
            ],
            seq![
                "        "@,
                super::painted(false, Style::Dim, "attrs:"@),
                " "@,
                crate::text::cleaned(super::attrs_text(attrs)),
                "\n"@,
            ],
        );
    }
}

proof fn lemma_status(code: i32)
    ensures
        part_of(super::status_text(code, true), super::status_text(code, false)),
{
    super::laws::lemma_words();
    lemma_painted(Style::Green, "OK"@);
    lemma_painted(Style::Red, "ERROR"@);
    lemma_painted(Style::Dim, "UNSET"@);
}

#[verifier::rlimit(50)]
proof fn lemma_span_line(span: Span, service: Seq<char>, scope: Seq<char>)
    ensures
        colors(
            super::span_line(span, service, scope, true),
            super::span_line(span, service, scope, false),
        ),
{
    super::laws::lemma_words();
    super::laws::lemma_labels();
    super::laws::lemma_time(span.start_time_unix_nano);
    super::laws::lemma_cleaned(service);
    super::laws::lemma_cleaned(scope);
    super::laws::lemma_cleaned(span.name@);
    super::laws::lemma_duration(super::span_duration(span));
    super::laws::lemma_hex(span.trace_id@);
    super::laws::lemma_hex(span.span_id@);
    lemma_status(span.status_code);
    lemma_painted(Style::Magenta, "[trace]"@);
    lemma_painted(Style::Dim, super::time_text(span.start_time_unix_nano));
    lemma_painted(Style::Bold, crate::text::cleaned(service));
    lemma_painted(Style::Bold, crate::text::cleaned(span.name@));
    lemma_glued(
        seq![
            super::painted(true, Style::Magenta, "[trace]"@),
            " "@,
            super::painted(true, Style::Dim, super::time_text(span.start_time_unix_nano)),
            " service="@,
            super::painted(true, Style::Bold, crate::text::cleaned(service)),
            " scope="@,
            crate::text::cleaned(scope),
            " span="@,
            super::painted(true, Style::Bold, crate::text::cleaned(span.name@)),
            " dur="@,
            super::number::duration_text(super::span_duration(span)),
            " status="@,
            super::status_text(span.status_code, true),
            " trace="@,
            super::id_text(span.trace_id@),
            " span_id="@,
            super::id_text(span.span_id@),
            "\n"@,
        ],
        seq![
            super::painted(false, Style::Magenta, "[trace]"@),
            " "@,
            super::painted(false, Style::Dim, super::time_text(span.start_time_unix_nano)),
            " service="@,
            super::painted(false, Style::Bold, crate::text::cleaned(service)),
            " scope="@,
            crate::text::cleaned(scope),
            " span="@,
            super::painted(false, Style::Bold, crate::text::cleaned(span.name@)),
            " dur="@,
            super::number::duration_text(super::span_duration(span)),
            " status="@,
            super::status_text(span.status_code, false),
            " trace="@,
            super::id_text(span.trace_id@),
            " span_id="@,
            super::id_text(span.span_id@),
            "\n"@,
        ],
    );
}

proof fn lemma_event_line(ev: Event)
    ensures
        colors(
            super::event_line(ev, true),
            super::event_line(ev, false),
        ),
{
    let at = "event @"@ + super::time_text(ev.time_unix_nano);
    super::laws::lemma_words();
    super::laws::lemma_time(ev.time_unix_nano);
    super::laws::lemma_cleaned(ev.name@);
    super::laws::lemma_cleaned(super::attrs_text(ev.attributes@));
    super::laws::lemma_sum("event @"@, super::time_text(ev.time_unix_nano));
    lemma_painted(Style::Dim, at);
    lemma_painted(Style::Bold, crate::text::cleaned(ev.name@));
    lemma_glued(
        seq![
            "        "@,
            super::painted(true, Style::Dim, at),
            " "@,
            super::painted(true, Style::Bold, crate::text::cleaned(ev.name@)),
            " "@,
            crate::text::cleaned(super::attrs_text(ev.attributes@)),
            "\n"@,
        ],
        seq![
            "        "@,
            super::painted(false, Style::Dim, at),
            " "@,
            super::painted(false, Style::Bold, crate::text::cleaned(ev.name@)),
            " "@,
            crate::text::cleaned(super::attrs_text(ev.attributes@)),
            "\n"@,
        ],
    );
}

proof fn lemma_event_lines(events: Seq<Event>)
    ensures
        colors(
            super::event_lines(events, true),
            super::event_lines(events, false),
        ),
    decreases events.len(),
{
    if events.len() > 0 {
        lemma_event_lines(events.drop_last());
        lemma_event_line(events.last());
        lemma_colors_sum(
            super::event_lines(events.drop_last(), true),
            super::event_lines(events.drop_last(), false),
            super::event_line(events.last(), true),
            super::event_line(events.last(), false),
        );
    } else {
        lemma_plain(Seq::empty());
    }
}

proof fn lemma_span_lines(span: Span, service: Seq<char>, scope: Seq<char>)
    ensures
        colors(
            super::span_lines(span, service, scope, true),
            super::span_lines(span, service, scope, false),
        ),
{
    lemma_span_line(span, service, scope);
    lemma_attrs_line(span.attributes@);
    lemma_event_lines(span.events@);
    lemma_colors_sum(
        super::span_line(span, service, scope, true),
        super::span_line(span, service, scope, false),
        super::attrs_line(span.attributes@, true),
        super::attrs_line(span.attributes@, false),
    );
    lemma_colors_sum(
        super::span_line(span, service, scope, true) + super::attrs_line(span.attributes@, true),
        super::span_line(span, service, scope, false) + super::attrs_line(span.attributes@, false),
        super::event_lines(span.events@, true),
        super::event_lines(span.events@, false),
    );
}

proof fn lemma_spans(spans: Seq<Span>, service: Seq<char>, scope: Seq<char>)
    ensures
        colors(
            super::spans_text(spans, service, scope, true),
            super::spans_text(spans, service, scope, false),
        ),
    decreases spans.len(),
{
    if spans.len() > 0 {
        lemma_spans(spans.drop_last(), service, scope);
        lemma_span_lines(spans.last(), service, scope);
        lemma_colors_sum(
            super::spans_text(spans.drop_last(), service, scope, true),
            super::spans_text(spans.drop_last(), service, scope, false),
            super::span_lines(spans.last(), service, scope, true),
            super::span_lines(spans.last(), service, scope, false),
        );
    } else {
        lemma_plain(Seq::empty());
    }
}

proof fn lemma_scope_spans(scopes: Seq<ScopeSpans>, service: Seq<char>)
    ensures
        colors(
            super::scope_spans_text(scopes, service, true),
            super::scope_spans_text(scopes, service, false),
        ),
    decreases scopes.len(),
{
    if scopes.len() > 0 {
        lemma_scope_spans(scopes.drop_last(), service);
        let s = scopes.last();
        lemma_spans(s.spans@, service, s.scope@);
        lemma_colors_sum(
            super::scope_spans_text(scopes.drop_last(), service, true),
            super::scope_spans_text(scopes.drop_last(), service, false),
            super::spans_text(s.spans@, service, s.scope@, true),
            super::spans_text(s.spans@, service, s.scope@, false),
        );
    } else {
        lemma_plain(Seq::empty());
    }
}

proof fn lemma_traces(resources: Seq<ResourceSpans>)
    ensures
        colors(
            super::traces_text(resources, true),
            super::traces_text(resources, false),
        ),
    decreases resources.len(),
{
    if resources.len() > 0 {
        lemma_traces(resources.drop_last());
        let r = resources.last();
        let service = super::service_text(r.resource);
        lemma_scope_spans(r.scope_spans@, service);
        lemma_colors_sum(
            super::traces_text(resources.drop_last(), true),
            super::traces_text(resources.drop_last(), false),
            super::scope_spans_text(r.scope_spans@, service, true),
            super::scope_spans_text(r.scope_spans@, service, false),
        );
    } else {
        lemma_plain(Seq::empty());
    }
}

proof fn lemma_description(description: Seq<char>)
    ensures
        part_of(super::description_text(description, true), super::description_text(description, false)),
{
    let shown = crate::text::cleaned(description);
    super::laws::lemma_words();
    super::laws::lemma_cleaned(description);
    super::laws::lemma_sum("("@, shown);
    super::laws::lemma_sum("("@ + shown, ")"@);
    lemma_painted(Style::Dim, "("@ + shown + ")"@);
}

proof fn lemma_metric_line(m: Metric, service: Seq<char>, scope: Seq<char>)
    ensures
        colors(
            super::metric_line(m, service, scope, true),
            super::metric_line(m, service, scope, false),
        ),
{
    super::laws::lemma_words();
    super::laws::lemma_labels();
    super::laws::lemma_cleaned(service);
    super::laws::lemma_cleaned(scope);
    super::laws::lemma_cleaned(m.name@);
    super::laws::lemma_cleaned(m.unit@);
    super::laws::lemma_sum(" unit="@, crate::text::cleaned(m.unit@));
    super::laws::lemma_cleaned(super::data_text(m.data));
    lemma_description(m.description@);
    lemma_painted(Style::Cyan, "[metric]"@);
    lemma_painted(Style::Bold, crate::text::cleaned(service));
    lemma_painted(Style::Bold, crate::text::cleaned(m.name@));
    lemma_glued(
        seq![
            super::painted(true, Style::Cyan, "[metric]"@),
            " service="@,
            super::painted(true, Style::Bold, crate::text::cleaned(service)),
            " scope="@,
            crate::text::cleaned(scope),
            " name="@,
            super::painted(true, Style::Bold, crate::text::cleaned(m.name@)),
            super::unit_text(m.unit@),
            " "@,
            crate::text::cleaned(super::data_text(m.data)),
            " "@,
            super::description_text(m.description@, true),
            "\n"@,
        ],
        seq![
            super::painted(false, Style::Cyan, "[metric]"@),
            " service="@,
            super::painted(false, Style::Bold, crate::text::cleaned(service)),
            " scope="@,
            crate::text::cleaned(scope),
            " name="@,
            super::painted(false, Style::Bold, crate::text::cleaned(m.name@)),
            super::unit_text(m.unit@),
            " "@,
            crate::text::cleaned(super::data_text(m.data)),
            " "@,
            super::description_text(m.description@, false),
            "\n"@,
        ],
    );
}

proof fn lemma_metric_lines(metrics: Seq<Metric>, service: Seq<char>, scope: Seq<char>)
    ensures
        colors(
            super::metric_lines(metrics, service, scope, true),
            super::metric_lines(metrics, service, scope, false),
        ),
    decreases metrics.len(),
{
    if metrics.len() > 0 {
        lemma_metric_lines(metrics.drop_last(), service, scope);
        lemma_metric_line(metrics.last(), service, scope);
        lemma_colors_sum(
            super::metric_lines(metrics.drop_last(), service, scope, true),
            super::metric_lines(metrics.drop_last(), service, scope, false),
            super::metric_line(metrics.last(), service, scope, true),
            super::metric_line(metrics.last(), service, scope, false),
        );
    } else {
        lemma_plain(Seq::empty());
    }
}

proof fn lemma_scope_metrics(scopes: Seq<ScopeMetrics>, service: Seq<char>)
    ensures
        colors(
            super::scope_metrics_text(scopes, service, true),
            super::scope_metrics_text(scopes, service, false),
        ),
    decreases scopes.len(),
{
    if scopes.len() > 0 {
        lemma_scope_metrics(scopes.drop_last(), service);
        let s = scopes.last();
        lemma_metric_lines(s.metrics@, service, s.scope@);
        lemma_colors_sum(
            super::scope_metrics_text(scopes.drop_last(), service, true),
            super::scope_metrics_text(scopes.drop_last(), service, false),
            super::metric_lines(s.metrics@, service, s.scope@, true),
            super::metric_lines(s.metrics@, service, s.scope@, false),
        );
    } else {
        lemma_plain(Seq::empty());
    }
}

proof fn lemma_metrics(resources: Seq<ResourceMetrics>)
    ensures
        colors(
            super::metrics_text(resources, true),
            super::metrics_text(resources, false),
        ),
    decreases resources.len(),
{
    if resources.len() > 0 {
        lemma_metrics(resources.drop_last());
        let r = resources.last();
        let service = super::service_text(r.resource);
        lemma_scope_metrics(r.scope_metrics@, service);
        lemma_colors_sum(
            super::metrics_text(resources.drop_last(), true),
            super::metrics_text(resources.drop_last(), false),
            super::scope_metrics_text(r.scope_metrics@, service, true),
            super::scope_metrics_text(r.scope_metrics@, service, false),
        );
    } else {
        lemma_plain(Seq::empty());
    }
}

proof fn lemma_severity(severity: Seq<char>)
    ensures
        part_of(super::severity_shown(severity, true), super::severity_shown(severity, false)),
{
    let shown = crate::text::cleaned(severity);
    super::laws::lemma_cleaned(severity);
    lemma_painted(Style::Red, shown);
    lemma_painted(Style::Yellow, shown);
    lemma_painted(Style::Green, shown);
    lemma_painted(Style::Blue, shown);
    lemma_painted(Style::Magenta, shown);
}

proof fn lemma_log_line(log: LogRecord, service: Seq<char>, scope: Seq<char>)
    ensures
        colors(
            super::log_line(log, service, scope, true),
            super::log_line(log, service, scope, false),
        ),
{
    let severity = super::severity_text(log.severity_number, log.severity_text@);
    let body = super::quoted(super::body_text(log.body));
    super::laws::lemma_words();
    super::laws::lemma_labels();
    super::laws::lemma_time(log.time_unix_nano);
    super::laws::lemma_cleaned(service);
    super::laws::lemma_cleaned(scope);
    super::laws::lemma_cleaned(body);
    lemma_severity(severity);
    lemma_painted(Style::Yellow, "[log]"@);
    lemma_painted(Style::Dim, super::time_text(log.time_unix_nano));
    lemma_painted(Style::Bold, crate::text::cleaned(service));
    lemma_glued(
        seq![
            super::painted(true, Style::Yellow, "[log]"@),
            " "@,
            super::painted(true, Style::Dim, super::time_text(log.time_unix_nano)),
            " service="@,
            super::painted(true, Style::Bold, crate::text::cleaned(service)),
            " scope="@,
            crate::text::cleaned(scope),
            " severity="@,
            super::severity_shown(severity, true),
            " body="@,
            crate::text::cleaned(body),
            "\n"@,
        ],
        seq![
            super::painted(false, Style::Yellow, "[log]"@),
            " "@,
            super::painted(false, Style::Dim, super::time_text(log.time_unix_nano)),
            " service="@,
            super::painted(false, Style::Bold, crate::text::cleaned(service)),
            " scope="@,
            crate::text::cleaned(scope),
            " severity="@,
            super::severity_shown(severity, false),
            " body="@,
            crate::text::cleaned(body),
            "\n"@,
        ],
    );
}

proof fn lemma_log_lines(logs: Seq<LogRecord>, service: Seq<char>, scope: Seq<char>)
    ensures
        colors(
            super::log_lines(logs, service, scope, true),
            super::log_lines(logs, service, scope, false),
        ),
    decreases logs.len(),
{
    if logs.len() > 0 {
        let log = logs.last();
        lemma_log_lines(logs.drop_last(), service, scope);
        lemma_log_line(log, service, scope);
        lemma_attrs_line(log.attributes@);
        lemma_colors_sum(
            super::log_lines(logs.drop_last(), service, scope, true),
            super::log_lines(logs.drop_last(), service, scope, false),
            super::log_line(log, service, scope, true),
            super::log_line(log, service, scope, false),
        );
        lemma_colors_sum(
            super::log_lines(logs.drop_last(), service, scope, true) + super::log_line(log, service, scope, true),
            super::log_lines(logs.drop_last(), service, scope, false) + super::log_line(log, service, scope, false),
            super::attrs_line(log.attributes@, true),
            super::attrs_line(log.attributes@, false),
        );
    } else {
        lemma_plain(Seq::empty());
    }
}

proof fn lemma_scope_logs(scopes: Seq<ScopeLogs>, service: Seq<char>)
    ensures
        colors(
            super::scope_logs_text(scopes, service, true),
            super::scope_logs_text(scopes, service, false),
        ),
    decreases scopes.len(),
{
    if scopes.len() > 0 {
        lemma_scope_logs(scopes.drop_last(), service);
        let s = scopes.last();
        lemma_log_lines(s.log_records@, service, s.scope@);
        lemma_colors_sum(
            super::scope_logs_text(scopes.drop_last(), service, true),
            super::scope_logs_text(scopes.drop_last(), service, false),
            super::log_lines(s.log_records@, service, s.scope@, true),
            super::log_lines(s.log_records@, service, s.scope@, false),
        );
    } else {
        lemma_plain(Seq::empty());
    }
}

proof fn lemma_logs(resources: Seq<ResourceLogs>)
    ensures
        colors(
            super::logs_text(resources, true),
            super::logs_text(resources, false),
        ),
    decreases resources.len(),
{
    if resources.len() > 0 {
        lemma_logs(resources.drop_last());
        let r = resources.last();
        let service = super::service_text(r.resource);
        lemma_scope_logs(r.scope_logs@, service);
        lemma_colors_sum(
            super::logs_text(resources.drop_last(), true),
            super::logs_text(resources.drop_last(), false),
            super::scope_logs_text(r.scope_logs@, service, true),
            super::scope_logs_text(r.scope_logs@, service, false),
        );
    } else {
        lemma_plain(Seq::empty());
    }
}

/// Colour changes nothing but the colour: with the colour codes deleted, the
/// coloured text of a batch is the plain one, and the plain one has no escape
/// character.
pub proof fn law_colour_is_all_that_differs(record: super::TelemetryRecord)
    ensures
        without_colors(super::record_text(record, true)) == super::record_text(record, false),
        !super::record_text(record, false).contains('\u{1b}'),
{
    match record {
        super::TelemetryRecord::Traces(req) => lemma_traces(req.resource_spans@),
        super::TelemetryRecord::Metrics(req) => lemma_metrics(req.resource_metrics@),
        super::TelemetryRecord::Logs(req) => lemma_logs(req.resource_logs@),
    }
    super::laws::law_payloads_cannot_steer_the_terminal(record, false);
}

proof fn lemma_counters(s: ModelStats, a: Seq<char>, b: Seq<char>)
    requires
        part_of(a, b),
    ensures
        colors(super::counters_text(s, a), super::counters_text(s, b)),
{
    super::laws::lemma_total_labels();
    super::laws::lemma_decimal(s.input_tokens as nat);
    super::laws::lemma_decimal(s.output_tokens as nat);
    super::laws::lemma_decimal(s.cache_read_tokens as nat);
    super::laws::lemma_decimal(s.cache_creation_tokens as nat);
    super::laws::lemma_decimal(s.reasoning_output_tokens as nat);
    super::laws::lemma_cost(s.cost_usd);
    super::laws::lemma_duration(super::as_nanos(s.duration_ms));
    lemma_glued(
        seq![
            "requests="@,
            a,
            " input="@,
            crate::text::decimal(s.input_tokens as nat),
            " output="@,
            crate::text::decimal(s.output_tokens as nat),
            " cache_read="@,
            crate::text::decimal(s.cache_read_tokens as nat),
            " cache_create="@,
            crate::text::decimal(s.cache_creation_tokens as nat),
            " reasoning="@,
            crate::text::decimal(s.reasoning_output_tokens as nat),
            " cost="@,
            super::number::cost_text(s.cost_usd),
            " duration="@,
            super::number::duration_text(super::as_nanos(s.duration_ms)),
        ],
        seq![
            "requests="@,
            b,
            " input="@,
            crate::text::decimal(s.input_tokens as nat),
            " output="@,
            crate::text::decimal(s.output_tokens as nat),
            " cache_read="@,
            crate::text::decimal(s.cache_read_tokens as nat),
            " cache_create="@,
            crate::text::decimal(s.cache_creation_tokens as nat),
            " reasoning="@,
            crate::text::decimal(s.reasoning_output_tokens as nat),
            " cost="@,
            super::number::cost_text(s.cost_usd),
            " duration="@,
            super::number::duration_text(super::as_nanos(s.duration_ms)),
        ],
    );
}

proof fn lemma_bucket_line(b: BucketStats)
    ensures
        colors(
            super::bucket_line(b, true),
            super::bucket_line(b, false),
        ),
{
    let requests = crate::text::decimal(b.stats.request_count as nat);
    super::laws::lemma_words();
    super::laws::lemma_total_labels();
    super::laws::lemma_cleaned(b.provider@);
    super::laws::lemma_cleaned(b.model@);
    super::laws::lemma_cleaned(b.effort@);
    super::laws::lemma_decimal(b.stats.request_count as nat);
    lemma_counters(b.stats, requests, requests);
    lemma_painted(Style::Dim, "breakdown"@);
    lemma_painted(Style::Bold, crate::text::cleaned(b.provider@));
    lemma_painted(Style::Bold, crate::text::cleaned(b.model@));
    lemma_painted(Style::Bold, crate::text::cleaned(b.effort@));
    lemma_glued(
        seq![
            "        "@,
            super::painted(true, Style::Dim, "breakdown"@),
            " provider="@,
            super::painted(true, Style::Bold, crate::text::cleaned(b.provider@)),
            " model="@,
            super::painted(true, Style::Bold, crate::text::cleaned(b.model@)),
            " effort="@,
            super::painted(true, Style::Bold, crate::text::cleaned(b.effort@)),
            ": "@,
            super::counters_text(b.stats, requests),
            "\n"@,
        ],
        seq![
            "        "@,
            super::painted(false, Style::Dim, "breakdown"@),
            " provider="@,
            super::painted(false, Style::Bold, crate::text::cleaned(b.provider@)),
            " model="@,
            super::painted(false, Style::Bold, crate::text::cleaned(b.model@)),
            " effort="@,
            super::painted(false, Style::Bold, crate::text::cleaned(b.effort@)),
            ": "@,
            super::counters_text(b.stats, requests),
            "\n"@,
        ],
    );
}

proof fn lemma_bucket_lines(rows: Seq<Row<String, BucketStats>>)
    ensures
        colors(
            super::bucket_lines(rows, true),
            super::bucket_lines(rows, false),
        ),
    decreases rows.len(),
{
    if rows.len() > 0 {
        lemma_bucket_lines(rows.drop_last());
        lemma_bucket_line(rows.last().value);
        lemma_colors_sum(
            super::bucket_lines(rows.drop_last(), true),
            super::bucket_lines(rows.drop_last(), false),
            super::bucket_line(rows.last().value, true),
            super::bucket_line(rows.last().value, false),
        );
    } else {
        lemma_plain(Seq::empty());
    }
}

proof fn lemma_total_line(agent: Seq<char>, total: ModelStats, since: Seq<char>)
    ensures
        colors(
            super::total_line(agent, total, since, true),
            super::total_line(agent, total, since, false),
        ),
{
    let count = crate::text::decimal(total.request_count as nat);
    let tag = "[stats:"@ + crate::text::cleaned(agent) + "]"@;
    super::laws::lemma_words();
    super::laws::lemma_total_labels();
    super::laws::lemma_cleaned(agent);
    super::laws::lemma_cleaned(since);
    super::laws::lemma_decimal(total.request_count as nat);
    super::laws::lemma_sum("[stats:"@, crate::text::cleaned(agent));
    super::laws::lemma_sum("[stats:"@ + crate::text::cleaned(agent), "]"@);
    lemma_painted(Style::Bold, count);
    lemma_counters(
        total,
        super::painted(true, Style::Bold, count),
        super::painted(false, Style::Bold, count),
    );
    lemma_painted(Style::Cyan, tag);
    lemma_painted(Style::Dim, crate::text::cleaned(since));
    lemma_glued(
        seq![
            super::painted(true, Style::Cyan, tag),
            " "@,
            super::counters_text(total, super::painted(true, Style::Bold, count)),
            " since="@,
            super::painted(true, Style::Dim, crate::text::cleaned(since)),
            "\n"@,
        ],
        seq![
            super::painted(false, Style::Cyan, tag),
            " "@,
            super::counters_text(total, super::painted(false, Style::Bold, count)),
            " since="@,
            super::painted(false, Style::Dim, crate::text::cleaned(since)),
            "\n"@,
        ],
    );
}

proof fn lemma_agent_lines(rows: Seq<Row<String, AgentStats>>, since: Seq<char>)
    ensures
        colors(
            super::agent_lines(rows, since, true),
            super::agent_lines(rows, since, false),
        ),
    decreases rows.len(),
{
    if rows.len() > 0 {
        let a = rows.last();
        lemma_agent_lines(rows.drop_last(), since);
        lemma_total_line(a.key@, a.value.total, since);
        lemma_bucket_lines(a.value.buckets.spec_rows());
        lemma_colors_sum(
            super::agent_lines(rows.drop_last(), since, true),
            super::agent_lines(rows.drop_last(), since, false),
            super::total_line(a.key@, a.value.total, since, true),
            super::total_line(a.key@, a.value.total, since, false),
        );
        lemma_colors_sum(
            super::agent_lines(rows.drop_last(), since, true) + super::total_line(a.key@, a.value.total, since, true),
            super::agent_lines(rows.drop_last(), since, false) + super::total_line(a.key@, a.value.total, since, false),
            super::bucket_lines(a.value.buckets.spec_rows(), true),
            super::bucket_lines(a.value.buckets.spec_rows(), false),
        );
    } else {
        lemma_plain(Seq::empty());
    }
}

/// The same holds of the totals.
pub proof fn law_colour_is_all_that_differs_in_totals(
    rows: Seq<Row<String, AgentStats>>,
    since: Seq<char>,
)
    ensures
        without_colors(super::agent_lines(rows, since, true)) == super::agent_lines(
            rows,
            since,
            false,
        ),
        !super::agent_lines(rows, since, false).contains('\u{1b}'),
{
    lemma_agent_lines(rows, since);
    super::laws::law_labels_cannot_steer_the_terminal(rows, since, false);
}

} // verus!
