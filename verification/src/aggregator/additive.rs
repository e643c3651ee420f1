//! Batches count part by part: what several parts count together is what they
//! count one after another, and every part counts.

use super::model::{Measure, Source, UsageView};
use super::stats::ModelStats;
use crate::otlp::{
    Event, HistogramDataPoint, LogRecord, Metric, MetricData, NumberDataPoint, ResourceLogs,
    ResourceMetrics, ResourceSpans, ScopeLogs, ScopeMetrics, ScopeSpans, Span,
};
use vstd::prelude::*;

verus! {

/// The log records of the resources `p` followed by `q` count as those of `p` and
/// then those of `q`.
pub proof fn law_resources_of_logs_add_up(
    u: UsageView,
    p: Seq<ResourceLogs>,
    q: Seq<ResourceLogs>,
    now: int,
)
    ensures
        ({
            let first = super::model::logs_taken(u, p, now);
            let second = super::model::logs_taken(first.usage, q, now);
            let both = super::model::logs_taken(u, p + q, now);
            &&& both.usage == second.usage
            &&& both.hits == first.hits + second.hits
        }),
    decreases q.len(),
{
    if q.len() == 0 {
        assert(p + q =~= p);
    } else {
        law_resources_of_logs_add_up(u, p, q.drop_last(), now);
        assert((p + q).drop_last() =~= p + q.drop_last());
    }
}

/// The log records of the scopes `p` followed by `q` count as those of `p` and then
/// those of `q`.
pub proof fn law_scopes_of_logs_add_up(
    u: UsageView,
    service: Seq<char>,
    p: Seq<ScopeLogs>,
    q: Seq<ScopeLogs>,
    now: int,
)
    ensures
        ({
            let first = super::model::scope_logs_taken(u, service, p, now);
            let second = super::model::scope_logs_taken(first.usage, service, q, now);
            let both = super::model::scope_logs_taken(u, service, p + q, now);
            &&& both.usage == second.usage
            &&& both.hits == first.hits + second.hits
        }),
    decreases q.len(),
{
    if q.len() == 0 {
        assert(p + q =~= p);
    } else {
        law_scopes_of_logs_add_up(u, service, p, q.drop_last(), now);
        assert((p + q).drop_last() =~= p + q.drop_last());
    }
}

/// Every log record counts: `p` followed by `q` counts as `p` and then `q`.
pub proof fn law_log_records_add_up(
    u: UsageView,
    service: Seq<char>,
    p: Seq<LogRecord>,
    q: Seq<LogRecord>,
    now: int,
)
    ensures
        ({
            let first = super::model::records_taken(u, service, p, now);
            let second = super::model::records_taken(first.usage, service, q, now);
            let both = super::model::records_taken(u, service, p + q, now);
            &&& both.usage == second.usage
            &&& both.hits == first.hits + second.hits
        }),
    decreases q.len(),
{
    if q.len() == 0 {
        assert(p + q =~= p);
    } else {
        law_log_records_add_up(u, service, p, q.drop_last(), now);
        assert((p + q).drop_last() =~= p + q.drop_last());
    }
}

/// The spans of the resources `p` followed by `q` count as those of `p` and then
/// those of `q`.
pub proof fn law_resources_of_spans_add_up(
    u: UsageView,
    p: Seq<ResourceSpans>,
    q: Seq<ResourceSpans>,
)
    ensures
        ({
            let first = super::model::traces_taken(u, p);
            let second = super::model::traces_taken(first.usage, q);
            let both = super::model::traces_taken(u, p + q);
            &&& both.usage == second.usage
            &&& both.hits == first.hits + second.hits
        }),
    decreases q.len(),
{
    if q.len() == 0 {
        assert(p + q =~= p);
    } else {
        law_resources_of_spans_add_up(u, p, q.drop_last());
        assert((p + q).drop_last() =~= p + q.drop_last());
    }
}

/// The spans of the scopes `p` followed by `q` count as those of `p` and then those
/// of `q`.
pub proof fn law_scopes_of_spans_add_up(
    u: UsageView,
    service: Seq<char>,
    p: Seq<ScopeSpans>,
    q: Seq<ScopeSpans>,
)
    ensures
        ({
            let first = super::model::scope_spans_taken(u, service, p);
            let second = super::model::scope_spans_taken(first.usage, service, q);
            let both = super::model::scope_spans_taken(u, service, p + q);
            &&& both.usage == second.usage
            &&& both.hits == first.hits + second.hits
        }),
    decreases q.len(),
{
    if q.len() == 0 {
        assert(p + q =~= p);
    } else {
        law_scopes_of_spans_add_up(u, service, p, q.drop_last());
        assert((p + q).drop_last() =~= p + q.drop_last());
    }
}

/// Every span counts: `p` followed by `q` counts as `p` and then `q`.
pub proof fn law_spans_add_up(
    u: UsageView,
    service: Seq<char>,
    p: Seq<Span>,
    q: Seq<Span>,
)
    ensures
        ({
            let first = super::model::spans_taken(u, service, p);
            let second = super::model::spans_taken(first.usage, service, q);
            let both = super::model::spans_taken(u, service, p + q);
            &&& both.usage == second.usage
            &&& both.hits == first.hits + second.hits
        }),
    decreases q.len(),
{
    if q.len() == 0 {
        assert(p + q =~= p);
    } else {
        law_spans_add_up(u, service, p, q.drop_last());
        assert((p + q).drop_last() =~= p + q.drop_last());
    }
}

/// Every span event counts: `p` followed by `q` counts as `p` and then `q`.
pub proof fn law_events_add_up(
    u: UsageView,
    service: Seq<char>,
    p: Seq<Event>,
    q: Seq<Event>,
)
    ensures
        ({
            let first = super::model::events_taken(u, service, p);
            let second = super::model::events_taken(first.usage, service, q);
            let both = super::model::events_taken(u, service, p + q);
            &&& both.usage == second.usage
            &&& both.hits == first.hits + second.hits
        }),
    decreases q.len(),
{
    if q.len() == 0 {
        assert(p + q =~= p);
    } else {
        law_events_add_up(u, service, p, q.drop_last());
        assert((p + q).drop_last() =~= p + q.drop_last());
    }
}

/// The metrics of the resources `p` followed by `q` count as those of `p` and then
/// those of `q`.
pub proof fn law_resources_of_metrics_add_up(
    u: UsageView,
    p: Seq<ResourceMetrics>,
    q: Seq<ResourceMetrics>,
    now: int,
)
    ensures
        ({
            let first = super::model::metrics_taken(u, p, now);
            let second = super::model::metrics_taken(first.usage, q, now);
            let both = super::model::metrics_taken(u, p + q, now);
            &&& both.usage == second.usage
            &&& both.hits == first.hits + second.hits
        }),
    decreases q.len(),
{
    if q.len() == 0 {
        assert(p + q =~= p);
    } else {
        law_resources_of_metrics_add_up(u, p, q.drop_last(), now);
        assert((p + q).drop_last() =~= p + q.drop_last());
    }
}

/// The metrics of the scopes `p` followed by `q` count as those of `p` and then
/// those of `q`.
pub proof fn law_scopes_of_metrics_add_up(
    u: UsageView,
    service: Seq<char>,
    p: Seq<ScopeMetrics>,
    q: Seq<ScopeMetrics>,
    now: int,
)
    ensures
        ({
            let first = super::model::scope_metrics_taken(u, service, p, now);
            let second = super::model::scope_metrics_taken(first.usage, service, q, now);
            let both = super::model::scope_metrics_taken(u, service, p + q, now);
            &&& both.usage == second.usage
            &&& both.hits == first.hits + second.hits
        }),
    decreases q.len(),
{
    if q.len() == 0 {
        assert(p + q =~= p);
    } else {
        law_scopes_of_metrics_add_up(u, service, p, q.drop_last(), now);
        assert((p + q).drop_last() =~= p + q.drop_last());
    }
}

/// Every metric counts: `p` followed by `q` counts as `p` and then `q`.
pub proof fn law_metrics_add_up(
    u: UsageView,
    service: Seq<char>,
    p: Seq<Metric>,
    q: Seq<Metric>,
    now: int,
)
    ensures
        ({
            let first = super::model::metric_list_taken(u, service, p, now);
            let second = super::model::metric_list_taken(first.usage, service, q, now);
            let both = super::model::metric_list_taken(u, service, p + q, now);
            &&& both.usage == second.usage
            &&& both.hits == first.hits + second.hits
        }),
    decreases q.len(),
{
    if q.len() == 0 {
        assert(p + q =~= p);
    } else {
        law_metrics_add_up(u, service, p, q.drop_last(), now);
        assert((p + q).drop_last() =~= p + q.drop_last());
    }
}

/// Number data points `p` followed by `q` count as `p` and then `q`.
pub proof fn law_number_points_add_up(
    u: UsageView,
    service: Seq<char>,
    measure: Measure,
    p: Seq<NumberDataPoint>,
    q: Seq<NumberDataPoint>,
    now: int,
)
    ensures
        ({
            let first = super::model::number_points_taken(u, service, measure, p, now);
            let second = super::model::number_points_taken(first.usage, service, measure, q, now);
            let both = super::model::number_points_taken(u, service, measure, p + q, now);
            &&& both.usage == second.usage
            &&& both.hits == first.hits + second.hits
        }),
    decreases q.len(),
{
    if q.len() == 0 {
        assert(p + q =~= p);
    } else {
        law_number_points_add_up(u, service, measure, p, q.drop_last(), now);
        assert((p + q).drop_last() =~= p + q.drop_last());
    }
}

/// Histogram data points `p` followed by `q` count as `p` and then `q`.
pub proof fn law_histogram_points_add_up(
    u: UsageView,
    service: Seq<char>,
    measure: Measure,
    p: Seq<HistogramDataPoint>,
    q: Seq<HistogramDataPoint>,
    now: int,
)
    ensures
        ({
            let first = super::model::histogram_points_taken(u, service, measure, p, now);
            let second = super::model::histogram_points_taken(first.usage, service, measure, q, now);
            let both = super::model::histogram_points_taken(u, service, measure, p + q, now);
            &&& both.usage == second.usage
            &&& both.hits == first.hits + second.hits
        }),
    decreases q.len(),
{
    if q.len() == 0 {
        assert(p + q =~= p);
    } else {
        law_histogram_points_add_up(u, service, measure, p, q.drop_last(), now);
        assert((p + q).drop_last() =~= p + q.drop_last());
    }
}

/// Every data point of an increment histogram counts: a metric with the points `p`
/// followed by `q` leaves the same totals, and takes the same number of samples, as
/// a metric with `p` and then one with `q`.
pub proof fn law_points_of_a_histogram_add_up(
    u: UsageView,
    service: Seq<char>,
    both: Metric,
    a: Metric,
    b: Metric,
    now: int,
)
    requires
        a.name@ == both.name@,
        b.name@ == both.name@,
        both.data matches Some(MetricData::Histogram(h)) && a.data matches Some(
            MetricData::Histogram(p),
        ) && b.data matches Some(MetricData::Histogram(q)) && h.data_points@ == p.data_points@
            + q.data_points@ && p.aggregation_temporality == h.aggregation_temporality
            && q.aggregation_temporality == h.aggregation_temporality,
    ensures
        ({
            let first = super::model::metric_taken(u, service, a, now);
            let second = super::model::metric_taken(first.usage, service, b, now);
            let whole = super::model::metric_taken(u, service, both, now);
            &&& whole.usage == second.usage
            &&& whole.hits == first.hits + second.hits
        }),
{
    reveal(super::model::metric_taken);
    law_histogram_points_add_up(
        u,
        service,
        super::model::measure_of(service, both.name@),
        a.data->0->Histogram_0.data_points@,
        b.data->0->Histogram_0.data_points@,
        now,
    );
}

/// Every data point of an increment sum counts: a metric with the points `p`
/// followed by `q` leaves the same totals, and takes the same number of samples, as
/// a metric with `p` and then one with `q`.
pub proof fn law_points_of_a_sum_add_up(
    u: UsageView,
    service: Seq<char>,
    both: Metric,
    a: Metric,
    b: Metric,
    now: int,
)
    requires
        a.name@ == both.name@,
        b.name@ == both.name@,
        both.data matches Some(MetricData::Sum(h)) && a.data matches Some(MetricData::Sum(p))
            && b.data matches Some(MetricData::Sum(q)) && h.data_points@ == p.data_points@
            + q.data_points@ && p.aggregation_temporality == h.aggregation_temporality
            && q.aggregation_temporality == h.aggregation_temporality,
    ensures
        ({
            let first = super::model::metric_taken(u, service, a, now);
            let second = super::model::metric_taken(first.usage, service, b, now);
            let whole = super::model::metric_taken(u, service, both, now);
            &&& whole.usage == second.usage
            &&& whole.hits == first.hits + second.hits
        }),
{
    reveal(super::model::metric_taken);
    law_number_points_add_up(
        u,
        service,
        super::model::measure_of(service, both.name@),
        a.data->0->Sum_0.data_points@,
        b.data->0->Sum_0.data_points@,
        now,
    );
}

/// A span counts by its events and then by its name: spans that differ in their
/// events only count as the events of the first and then the second.
pub proof fn law_events_of_a_span_add_up(
    u: UsageView,
    service: Seq<char>,
    p: Seq<Event>,
    rest: Span,
    whole: Span,
)
    requires
        whole.name@ == rest.name@,
        whole.attributes@ == rest.attributes@,
        whole.events@ == p + rest.events@,
    ensures
        ({
            let first = super::model::events_taken(u, service, p);
            let second = super::model::span_taken(first.usage, service, rest);
            let both = super::model::span_taken(u, service, whole);
            &&& both.usage == second.usage
            &&& both.hits == first.hits + second.hits
        }),
{
    reveal(super::model::span_taken);
    law_events_add_up(u, service, p, rest.events@);
}

/// A batch with a single log record counts that record, as one of the service of
/// its resource.
pub proof fn law_a_single_record_counts(u: UsageView, r: ResourceLogs, now: int)
    requires
        r.scope_logs@.len() == 1,
        r.scope_logs@[0].log_records@.len() == 1,
    ensures
        super::model::logs_taken(u, seq![r], now) == super::model::log_taken(
            u,
            crate::otlp::service_of(r.resource),
            r.scope_logs@[0].log_records@[0],
            now,
        ),
{
    let service = crate::otlp::service_of(r.resource);
    let records = r.scope_logs@[0].log_records@;
    assert(seq![r].drop_last() =~= Seq::<ResourceLogs>::empty());
    assert(r.scope_logs@.drop_last() =~= Seq::<ScopeLogs>::empty());
    assert(records.drop_last() =~= Seq::<LogRecord>::empty());
    assert(super::model::logs_taken(u, seq![r].drop_last(), now).usage == u);
    assert(super::model::scope_logs_taken(u, service, r.scope_logs@.drop_last(), now).usage == u);
    assert(super::model::records_taken(u, service, records.drop_last(), now).usage == u);
}

/// A batch with a single metric counts that metric, as one of the service of its
/// resource.
pub proof fn law_a_single_metric_counts(u: UsageView, r: ResourceMetrics, now: int)
    requires
        r.scope_metrics@.len() == 1,
        r.scope_metrics@[0].metrics@.len() == 1,
    ensures
        super::model::metrics_taken(u, seq![r], now) == super::model::metric_taken(
            u,
            crate::otlp::service_of(r.resource),
            r.scope_metrics@[0].metrics@[0],
            now,
        ),
{
    let service = crate::otlp::service_of(r.resource);
    let metrics = r.scope_metrics@[0].metrics@;
    assert(seq![r].drop_last() =~= Seq::<ResourceMetrics>::empty());
    assert(r.scope_metrics@.drop_last() =~= Seq::<ScopeMetrics>::empty());
    assert(metrics.drop_last() =~= Seq::<Metric>::empty());
    assert(super::model::metrics_taken(u, seq![r].drop_last(), now).usage == u);
    assert(super::model::scope_metrics_taken(u, service, r.scope_metrics@.drop_last(), now).usage
        == u);
    assert(super::model::metric_list_taken(u, service, metrics.drop_last(), now).usage == u);
}

/// A batch with a single span of Codex counts that span, and one of another service
/// counts nothing.
pub proof fn law_a_single_span_counts(u: UsageView, r: ResourceSpans)
    requires
        r.scope_spans@.len() == 1,
        r.scope_spans@[0].spans@.len() == 1,
    ensures
        ({
            let service = crate::otlp::service_of(r.resource);
            let taken = super::model::traces_taken(u, seq![r]);
            if service == "codex_cli_rs"@ || service == "codex_exec"@ || service
                == "codex-app-server"@ || service == "codex_mcp_server"@ {
                taken == super::model::span_taken(u, service, r.scope_spans@[0].spans@[0])
            } else {
                taken.usage == u && taken.hits == 0
            }
        }),
{
    let service = crate::otlp::service_of(r.resource);
    let spans = r.scope_spans@[0].spans@;
    assert(seq![r].drop_last() =~= Seq::<ResourceSpans>::empty());
    assert(r.scope_spans@.drop_last() =~= Seq::<ScopeSpans>::empty());
    assert(spans.drop_last() =~= Seq::<Span>::empty());
    assert(super::model::traces_taken(u, seq![r].drop_last()).usage == u);
    assert(super::model::scope_spans_taken(u, service, r.scope_spans@.drop_last()).usage == u);
    assert(super::model::spans_taken(u, service, spans.drop_last()).usage == u);
}

/// The number, or the largest counter where it is beyond that.
pub open spec fn capped(n: int) -> int {
    if n <= 0xffff_ffff_ffff_ffff {
        n
    } else {
        0xffff_ffff_ffff_ffff
    }
}

/// The sum of the values of those histogram data points whose `token_type` is the
/// given one.
pub open spec fn codex_tokens(points: Seq<HistogramDataPoint>, kind: Seq<char>) -> nat
    decreases points.len(),
{
    if points.len() == 0 {
        0
    } else {
        codex_tokens(points.drop_last(), kind) + (if crate::otlp::text_attr_or_empty(
            points.last().attributes@,
            "token_type"@,
        ) == kind {
            super::model::histogram_counter(points.last()) as nat
        } else {
            0
        })
    }
}

/// The number of histogram data points whose `token_type` is the given one.
pub open spec fn codex_samples(points: Seq<HistogramDataPoint>, kind: Seq<char>) -> nat
    decreases points.len(),
{
    if points.len() == 0 {
        0
    } else {
        codex_samples(points.drop_last(), kind) + (if crate::otlp::text_attr_or_empty(
            points.last().attributes@,
            "token_type"@,
        ) == kind {
            1nat
        } else {
            0
        })
    }
}

/// Whether the tokens of the models of data points may be counted from metrics.
pub open spec fn open_to_metrics(u: UsageView, points: Seq<HistogramDataPoint>) -> bool {
    forall|i: int|
        0 <= i < points.len() ==> {
            let model = crate::otlp::text_attr_or_empty(
                (#[trigger] points[i]).attributes@,
                "model"@,
            );
            let key = if model.len() == 0 {
                "unknown"@
            } else {
                model
            };
            !(u.codex_sources.dom().contains(key) && u.codex_sources[key] == Source::Logs)
        }
}

/// Whether a service is one of the Codex processes.
pub open spec fn one_of_codex(service: Seq<char>) -> bool {
    ||| service == "codex_cli_rs"@
    ||| service == "codex_exec"@
    ||| service == "codex-app-server"@
    ||| service == "codex_mcp_server"@
}

pub proof fn lemma_token_types_differ()
    ensures
        "input"@ != "output"@,
        "input"@ != "cached_input"@,
        "input"@ != "cache_write_input"@,
        "input"@ != "reasoning_output"@,
        "output"@ != "cached_input"@,
        "output"@ != "cache_write_input"@,
        "output"@ != "reasoning_output"@,
        "cached_input"@ != "cache_write_input"@,
        "cached_input"@ != "reasoning_output"@,
        "cache_write_input"@ != "reasoning_output"@,
        "input"@ != "cacheRead"@,
        "input"@ != "cacheCreation"@,
        "output"@ != "cacheRead"@,
        "output"@ != "cacheCreation"@,
        "cacheRead"@ != "cacheCreation"@,
{
    reveal_strlit("input");
    reveal_strlit("output");
    reveal_strlit("cached_input");
    reveal_strlit("cache_write_input");
    reveal_strlit("reasoning_output");
    reveal_strlit("cacheRead");
    reveal_strlit("cacheCreation");
    assert("input"@[0] != "output"@[0]);
    assert("cached_input"@.len() == 12);
    assert("cache_write_input"@.len() == 17);
    assert("reasoning_output"@.len() == 16);
    assert("cacheRead"@.len() == 9);
    assert("cacheCreation"@.len() == 13);
}

pub proof fn lemma_metric_names_differ()
    ensures
        "codex.turn.token_usage"@ != "codex.conversation.turn.count"@,
        "codex.turn.token_usage"@ != "codex.turn.e2e_duration_ms"@,
        "codex.conversation.turn.count"@ != "codex.turn.e2e_duration_ms"@,
        "codex_cli_rs"@ != crate::agent::claude_code(),
        "codex_exec"@ != crate::agent::claude_code(),
        "codex-app-server"@ != crate::agent::claude_code(),
        "codex_mcp_server"@ != crate::agent::claude_code(),
        "claude_code.token.usage"@ != "claude_code.cost.usage"@,
{
    crate::agent::lemma_claude_code();
    reveal_strlit("codex.turn.token_usage");
    reveal_strlit("codex.conversation.turn.count");
    reveal_strlit("codex.turn.e2e_duration_ms");
    reveal_strlit("codex_cli_rs");
    reveal_strlit("codex_exec");
    reveal_strlit("codex-app-server");
    reveal_strlit("codex_mcp_server");
    reveal_strlit("claude_code.token.usage");
    reveal_strlit("claude_code.cost.usage");
    assert("codex.turn.token_usage"@.len() == 22);
    assert("codex.conversation.turn.count"@.len() == 29);
    assert("codex.turn.e2e_duration_ms"@.len() == 26);
    assert("codex_cli_rs"@.len() == 12);
    assert("codex_exec"@.len() == 10);
    assert("codex-app-server"@.len() == 16);
    assert("codex_mcp_server"@.len() == 16);
    assert("claude_code.token.usage"@.len() == 23);
    assert("claude_code.cost.usage"@.len() == 22);
}

#[verifier::rlimit(30)]
proof fn lemma_codex_tokens(
    u: UsageView,
    service: Seq<char>,
    points: Seq<HistogramDataPoint>,
    now: int,
)
    requires
        open_to_metrics(u, points),
    ensures
        ({
            let t = super::model::histogram_points_taken(
                u,
                service,
                Measure::CodexTokens,
                points,
                now,
            );
            let (a, b) = (u.codex.total, t.usage.codex.total);
            &&& b.input_tokens == capped(a.input_tokens + codex_tokens(points, "input"@))
            &&& b.output_tokens == capped(a.output_tokens + codex_tokens(points, "output"@))
            &&& b.cache_read_tokens == capped(
                a.cache_read_tokens + codex_tokens(points, "cached_input"@),
            )
            &&& b.cache_creation_tokens == capped(
                a.cache_creation_tokens + codex_tokens(points, "cache_write_input"@),
            )
            &&& b.reasoning_output_tokens == capped(
                a.reasoning_output_tokens + codex_tokens(points, "reasoning_output"@),
            )
            &&& b.request_count == a.request_count
            &&& b.duration_ms == a.duration_ms
            &&& b.cost_usd == a.cost_usd
            &&& t.hits == codex_samples(points, "input"@) + codex_samples(points, "output"@)
                + codex_samples(points, "cached_input"@) + codex_samples(
                points,
                "cache_write_input"@,
            ) + codex_samples(points, "reasoning_output"@)
            &&& t.usage.last_updated == (if t.hits > 0 {
                Some(now)
            } else {
                u.last_updated
            })
            &&& t.usage.claude == u.claude
            &&& forall|m: Seq<char>|
                (#[trigger] t.usage.codex_sources.dom().contains(m) && t.usage.codex_sources[m]
                    == Source::Logs) ==> (u.codex_sources.dom().contains(m) && u.codex_sources[m]
                    == Source::Logs)
        }),
    decreases points.len(),
{
    lemma_token_types_differ();
    if points.len() > 0 {
        let front = points.drop_last();
        assert forall|i: int| 0 <= i < front.len() implies front[i] == points[i] by {}
        lemma_codex_tokens(u, service, front, now);
        reveal(super::model::histogram_point_taken);
        let last = points.last();
        assert(last == points[points.len() - 1]);
        assert(super::model::codex_counts(
            super::model::histogram_points_taken(
                u,
                service,
                Measure::CodexTokens,
                front,
                now,
            ).usage,
            super::stats::known(crate::otlp::text_attr_or_empty(last.attributes@, "model"@)),
            Source::Metrics,
        ));
    }
}

/// Every data point of a Codex token metric counts: where the tokens of the models
/// are not counted from logs, each token counter of the total grows by the sum of
/// the point values of its token type, and the points of these types are the
/// samples that were taken.
pub proof fn law_codex_tokens_add_up(u: UsageView, service: Seq<char>, metric: Metric, now: int)
    requires
        one_of_codex(service),
        metric.name@ == "codex.turn.token_usage"@,
        metric.data matches Some(MetricData::Histogram(h)) && h.aggregation_temporality == 1
            && open_to_metrics(u, h.data_points@),
    ensures
        ({
            let points = metric.data->0->Histogram_0.data_points@;
            let t = super::model::metric_taken(u, service, metric, now);
            let (a, b) = (u.codex.total, t.usage.codex.total);
            &&& b.input_tokens == capped(a.input_tokens + codex_tokens(points, "input"@))
            &&& b.output_tokens == capped(a.output_tokens + codex_tokens(points, "output"@))
            &&& b.cache_read_tokens == capped(
                a.cache_read_tokens + codex_tokens(points, "cached_input"@),
            )
            &&& b.cache_creation_tokens == capped(
                a.cache_creation_tokens + codex_tokens(points, "cache_write_input"@),
            )
            &&& b.reasoning_output_tokens == capped(
                a.reasoning_output_tokens + codex_tokens(points, "reasoning_output"@),
            )
            &&& b.request_count == a.request_count
            &&& b.duration_ms == a.duration_ms
            &&& b.cost_usd == a.cost_usd
            &&& t.hits == codex_samples(points, "input"@) + codex_samples(points, "output"@)
                + codex_samples(points, "cached_input"@) + codex_samples(
                points,
                "cache_write_input"@,
            ) + codex_samples(points, "reasoning_output"@)
            &&& t.hits > 0 ==> t.usage.last_updated == Some(now)
            &&& t.usage.claude == u.claude
        }),
{
    reveal(super::model::metric_taken);
    lemma_metric_names_differ();
    lemma_codex_tokens(u, service, metric.data->0->Histogram_0.data_points@, now);
}

/// The sum of the values of histogram data points.
pub open spec fn histogram_sum(points: Seq<HistogramDataPoint>) -> nat
    decreases points.len(),
{
    if points.len() == 0 {
        0
    } else {
        histogram_sum(points.drop_last()) + super::model::histogram_counter(points.last()) as nat
    }
}

/// The sum of the values of number data points.
pub open spec fn number_sum(points: Seq<NumberDataPoint>) -> nat
    decreases points.len(),
{
    if points.len() == 0 {
        0
    } else {
        number_sum(points.drop_last()) + super::model::point_counter(points.last()) as nat
    }
}

proof fn lemma_codex_turns(
    u: UsageView,
    service: Seq<char>,
    points: Seq<NumberDataPoint>,
    now: int,
)
    ensures
        ({
            let t = super::model::number_points_taken(
                u,
                service,
                Measure::CodexTurns,
                points,
                now,
            );
            &&& t.hits == points.len()
            &&& t.usage.claude == u.claude
            &&& t.hits > 0 ==> t.usage.last_updated == Some(now)
            &&& t.usage.codex.total == (ModelStats {
                request_count: capped(u.codex.total.request_count + number_sum(points)) as u64,
                ..u.codex.total
            })
        }),
    decreases points.len(),
{
    if points.len() > 0 {
        lemma_codex_turns(u, service, points.drop_last(), now);
        reveal(super::model::number_point_taken);
    }
}

/// Every data point of the Codex turn count counts: the requests of the total grow
/// by the sum of the point values, and nothing else of it changes.
pub proof fn law_codex_turns_add_up(u: UsageView, service: Seq<char>, metric: Metric, now: int)
    requires
        one_of_codex(service),
        metric.name@ == "codex.conversation.turn.count"@,
        metric.data matches Some(MetricData::Sum(s)) && s.aggregation_temporality == 1,
    ensures
        ({
            let points = metric.data->0->Sum_0.data_points@;
            let t = super::model::metric_taken(u, service, metric, now);
            &&& t.hits == points.len()
            &&& t.usage.claude == u.claude
            &&& t.hits > 0 ==> t.usage.last_updated == Some(now)
            &&& t.usage.codex.total == (ModelStats {
                request_count: capped(u.codex.total.request_count + number_sum(points)) as u64,
                ..u.codex.total
            })
        }),
{
    reveal(super::model::metric_taken);
    lemma_metric_names_differ();
    lemma_codex_turns(u, service, metric.data->0->Sum_0.data_points@, now);
}

proof fn lemma_codex_durations(
    u: UsageView,
    service: Seq<char>,
    points: Seq<HistogramDataPoint>,
    now: int,
)
    ensures
        ({
            let t = super::model::histogram_points_taken(
                u,
                service,
                Measure::CodexDuration,
                points,
                now,
            );
            &&& t.hits == points.len()
            &&& t.usage.claude == u.claude
            &&& t.hits > 0 ==> t.usage.last_updated == Some(now)
            &&& t.usage.codex.total == (ModelStats {
                duration_ms: capped(u.codex.total.duration_ms + histogram_sum(points)) as u64,
                ..u.codex.total
            })
        }),
    decreases points.len(),
{
    if points.len() > 0 {
        lemma_codex_durations(u, service, points.drop_last(), now);
        reveal(super::model::histogram_point_taken);
    }
}

/// Every data point of the Codex turn duration counts: the duration of the total
/// grows by the sum of the point values, and nothing else of it changes.
pub proof fn law_codex_durations_add_up(u: UsageView, service: Seq<char>, metric: Metric, now: int)
    requires
        one_of_codex(service),
        metric.name@ == "codex.turn.e2e_duration_ms"@,
        metric.data matches Some(MetricData::Histogram(h)) && h.aggregation_temporality == 1,
    ensures
        ({
            let points = metric.data->0->Histogram_0.data_points@;
            let t = super::model::metric_taken(u, service, metric, now);
            &&& t.hits == points.len()
            &&& t.usage.claude == u.claude
            &&& t.hits > 0 ==> t.usage.last_updated == Some(now)
            &&& t.usage.codex.total == (ModelStats {
                duration_ms: capped(u.codex.total.duration_ms + histogram_sum(points)) as u64,
                ..u.codex.total
            })
        }),
{
    reveal(super::model::metric_taken);
    lemma_metric_names_differ();
    lemma_codex_durations(u, service, metric.data->0->Histogram_0.data_points@, now);
}

/// The sum of the values of those number data points whose `type` is the given one.
pub open spec fn claude_tokens(points: Seq<NumberDataPoint>, kind: Seq<char>) -> nat
    decreases points.len(),
{
    if points.len() == 0 {
        0
    } else {
        claude_tokens(points.drop_last(), kind) + (if crate::otlp::text_attr_or_empty(
            points.last().attributes@,
            "type"@,
        ) == kind {
            super::model::point_counter(points.last()) as nat
        } else {
            0
        })
    }
}

/// The number of those number data points whose `type` is the given one and whose
/// value is not zero.
pub open spec fn claude_samples(points: Seq<NumberDataPoint>, kind: Seq<char>) -> nat
    decreases points.len(),
{
    if points.len() == 0 {
        0
    } else {
        claude_samples(points.drop_last(), kind) + (if crate::otlp::text_attr_or_empty(
            points.last().attributes@,
            "type"@,
        ) == kind && super::model::point_counter(points.last()) > 0 {
            1nat
        } else {
            0
        })
    }
}

/// Whether none of the data points is of an Anthropic model and effort that is
/// counted from logs.
pub open spec fn no_logs_for(u: UsageView, points: Seq<NumberDataPoint>) -> bool {
    forall|i: int|
        0 <= i < points.len() ==> {
            let attrs = (#[trigger] points[i]).attributes@;
            let bare = crate::text::before(
                super::stats::known(crate::otlp::text_attr_or_empty(attrs, "model"@)),
                '[',
            );
            let key = (
                super::stats::known(bare),
                super::stats::known(crate::otlp::text_attr_or_empty(attrs, "effort"@)),
            );
            !(u.claude_sources.dom().contains(key) && u.claude_sources[key] == Source::Logs)
        }
}

proof fn lemma_effort_is_known(effort: Seq<char>)
    ensures
        super::stats::known(super::stats::known(effort)) == super::stats::known(effort),
{
    reveal_strlit("unknown");
}

#[verifier::rlimit(30)]
proof fn lemma_claude_tokens(
    u: UsageView,
    service: Seq<char>,
    points: Seq<NumberDataPoint>,
    now: int,
)
    requires
        no_logs_for(u, points),
    ensures
        ({
            let t = super::model::number_points_taken(
                u,
                service,
                Measure::ClaudeTokens,
                points,
                now,
            );
            let (a, b) = (u.claude.total, t.usage.claude.total);
            &&& b.input_tokens == capped(a.input_tokens + claude_tokens(points, "input"@))
            &&& b.output_tokens == capped(a.output_tokens + claude_tokens(points, "output"@))
            &&& b.cache_read_tokens == capped(
                a.cache_read_tokens + claude_tokens(points, "cacheRead"@),
            )
            &&& b.cache_creation_tokens == capped(
                a.cache_creation_tokens + claude_tokens(points, "cacheCreation"@),
            )
            &&& b.reasoning_output_tokens == a.reasoning_output_tokens
            &&& b.request_count == a.request_count
            &&& b.duration_ms == a.duration_ms
            &&& b.cost_usd == a.cost_usd
            &&& t.hits == claude_samples(points, "input"@) + claude_samples(points, "output"@)
                + claude_samples(points, "cacheRead"@) + claude_samples(
                points,
                "cacheCreation"@,
            )
            &&& t.hits > 0 ==> t.usage.last_updated == Some(now)
            &&& t.usage.codex == u.codex
            &&& forall|k: (Seq<char>, Seq<char>)|
                (#[trigger] t.usage.claude_sources.dom().contains(k) && t.usage.claude_sources[k]
                    == Source::Logs) ==> (u.claude_sources.dom().contains(k) && u.claude_sources[k]
                    == Source::Logs)
        }),
    decreases points.len(),
{
    lemma_token_types_differ();
    if points.len() > 0 {
        let front = points.drop_last();
        assert forall|i: int| 0 <= i < front.len() implies front[i] == points[i] by {}
        lemma_claude_tokens(u, service, front, now);
        reveal(super::model::number_point_taken);
        let last = points.last();
        assert(last == points[points.len() - 1]);
        let v = super::model::number_points_taken(
            u,
            service,
            Measure::ClaudeTokens,
            front,
            now,
        ).usage;
        let attrs = last.attributes@;
        let key = super::model::claude_source_key(super::model::claude_point_bucket(attrs));
        lemma_effort_is_known(crate::otlp::text_attr_or_empty(attrs, "effort"@));
        assert(!(v.claude_sources.dom().contains(key) && v.claude_sources[key] == Source::Logs));
    }
}

/// Every data point of the Anthropic token metric counts: where no model and effort
/// of them is counted from logs, each token counter of the total grows by the sum of
/// the point values of its type, and nothing else of the total changes.
pub proof fn law_claude_tokens_add_up(u: UsageView, metric: Metric, now: int)
    requires
        metric.name@ == "claude_code.token.usage"@,
        metric.data matches Some(MetricData::Sum(s)) && s.aggregation_temporality == 1
            && no_logs_for(u, s.data_points@),
    ensures
        ({
            let points = metric.data->0->Sum_0.data_points@;
            let t = super::model::metric_taken(u, crate::agent::claude_code(), metric, now);
            let (a, b) = (u.claude.total, t.usage.claude.total);
            &&& b.input_tokens == capped(a.input_tokens + claude_tokens(points, "input"@))
            &&& b.output_tokens == capped(a.output_tokens + claude_tokens(points, "output"@))
            &&& b.cache_read_tokens == capped(
                a.cache_read_tokens + claude_tokens(points, "cacheRead"@),
            )
            &&& b.cache_creation_tokens == capped(
                a.cache_creation_tokens + claude_tokens(points, "cacheCreation"@),
            )
            &&& b.reasoning_output_tokens == a.reasoning_output_tokens
            &&& b.request_count == a.request_count
            &&& b.duration_ms == a.duration_ms
            &&& b.cost_usd == a.cost_usd
            &&& t.hits == claude_samples(points, "input"@) + claude_samples(points, "output"@)
                + claude_samples(points, "cacheRead"@) + claude_samples(
                points,
                "cacheCreation"@,
            )
            &&& t.hits > 0 ==> t.usage.last_updated == Some(now)
            &&& t.usage.codex == u.codex
        }),
{
    reveal(super::model::metric_taken);
    lemma_metric_names_differ();
    lemma_claude_tokens(
        u,
        crate::agent::claude_code(),
        metric.data->0->Sum_0.data_points@,
        now,
    );
}

/// The sum of the costs of number data points.
pub open spec fn cost_sum(points: Seq<NumberDataPoint>) -> nat
    decreases points.len(),
{
    if points.len() == 0 {
        0
    } else {
        cost_sum(points.drop_last()) + super::model::point_usd(points.last()).units as nat
    }
}

proof fn lemma_claude_costs(
    u: UsageView,
    service: Seq<char>,
    points: Seq<NumberDataPoint>,
    now: int,
)
    requires
        no_logs_for(u, points),
        u.claude.total.cost_usd.units + cost_sum(points) <= u128::MAX,
    ensures
        ({
            let t = super::model::number_points_taken(
                u,
                service,
                Measure::ClaudeCost,
                points,
                now,
            );
            &&& t.usage.claude.total == (ModelStats {
                cost_usd: crate::double::Usd {
                    units: (u.claude.total.cost_usd.units + cost_sum(points)) as u128,
                },
                ..u.claude.total
            })
            &&& t.usage.codex == u.codex
            &&& t.hits <= points.len()
            &&& t.hits > 0 ==> t.usage.last_updated == Some(now)
            &&& forall|k: (Seq<char>, Seq<char>)|
                (#[trigger] t.usage.claude_sources.dom().contains(k) && t.usage.claude_sources[k]
                    == Source::Logs) ==> (u.claude_sources.dom().contains(k) && u.claude_sources[k]
                    == Source::Logs)
        }),
    decreases points.len(),
{
    if points.len() > 0 {
        let front = points.drop_last();
        assert forall|i: int| 0 <= i < front.len() implies front[i] == points[i] by {}
        lemma_claude_costs(u, service, front, now);
        reveal(super::model::number_point_taken);
        let last = points.last();
        assert(last == points[points.len() - 1]);
        let v = super::model::number_points_taken(
            u,
            service,
            Measure::ClaudeCost,
            front,
            now,
        ).usage;
        let attrs = last.attributes@;
        let key = super::model::claude_source_key(super::model::claude_point_bucket(attrs));
        lemma_effort_is_known(crate::otlp::text_attr_or_empty(attrs, "effort"@));
        assert(!(v.claude_sources.dom().contains(key) && v.claude_sources[key] == Source::Logs));
    }
}

/// Every data point of the Anthropic cost metric counts: where no model and effort
/// of them is counted from logs, and the cost stays within its limit, the cost of
/// the total grows by the sum of the point values, and nothing else of it changes.
pub proof fn law_claude_costs_add_up(u: UsageView, metric: Metric, now: int)
    requires
        metric.name@ == "claude_code.cost.usage"@,
        metric.data matches Some(MetricData::Sum(s)) && s.aggregation_temporality == 1
            && no_logs_for(u, s.data_points@) && u.claude.total.cost_usd.units + cost_sum(
            s.data_points@,
        ) <= u128::MAX,
    ensures
        ({
            let points = metric.data->0->Sum_0.data_points@;
            let t = super::model::metric_taken(u, crate::agent::claude_code(), metric, now);
            &&& t.usage.claude.total == (ModelStats {
                cost_usd: crate::double::Usd {
                    units: (u.claude.total.cost_usd.units + cost_sum(points)) as u128,
                },
                ..u.claude.total
            })
            &&& t.usage.codex == u.codex
            &&& t.hits > 0 ==> t.usage.last_updated == Some(now)
        }),
{
    reveal(super::model::metric_taken);
    lemma_metric_names_differ();
    lemma_claude_costs(
        u,
        crate::agent::claude_code(),
        metric.data->0->Sum_0.data_points@,
        now,
    );
}

/// A metric counts nothing unless it is an increment sum or histogram with the name
/// of one of the measured quantities, of the agent that reports it, in the form in
/// which the agent reports it.
pub proof fn law_other_metrics_count_nothing(
    u: UsageView,
    service: Seq<char>,
    metric: Metric,
    now: int,
)
    requires
        !(metric.data is Some && metric.data->0 is Sum && ((service == crate::agent::claude_code()
            && (metric.name@ == "claude_code.token.usage"@ || metric.name@
            == "claude_code.cost.usage"@)) || (one_of_codex(service) && metric.name@
            == "codex.conversation.turn.count"@))),
        !(metric.data is Some && metric.data->0 is Histogram && one_of_codex(service) && (
        metric.name@ == "codex.turn.token_usage"@ || metric.name@
            == "codex.turn.e2e_duration_ms"@)),
    ensures
        super::model::metric_taken(u, service, metric, now).usage == u,
        super::model::metric_taken(u, service, metric, now).hits == 0,
{
    reveal(super::model::metric_taken);
    let measure = super::model::measure_of(service, metric.name@);
    if metric.data is Some && metric.data->0 is Sum {
        lemma_idle_number_points(u, service, measure, metric.data->0->Sum_0.data_points@, now);
    }
    if metric.data is Some && metric.data->0 is Histogram {
        lemma_idle_histogram_points(
            u,
            service,
            measure,
            metric.data->0->Histogram_0.data_points@,
            now,
        );
    }
}

proof fn lemma_idle_number_points(
    u: UsageView,
    service: Seq<char>,
    measure: Measure,
    points: Seq<NumberDataPoint>,
    now: int,
)
    requires
        measure is CodexTokens || measure is CodexDuration || measure is Nothing,
    ensures
        super::model::number_points_taken(u, service, measure, points, now).usage == u,
        super::model::number_points_taken(u, service, measure, points, now).hits == 0,
    decreases points.len(),
{
    if points.len() > 0 {
        lemma_idle_number_points(u, service, measure, points.drop_last(), now);
        reveal(super::model::number_point_taken);
    }
}

proof fn lemma_idle_histogram_points(
    u: UsageView,
    service: Seq<char>,
    measure: Measure,
    points: Seq<HistogramDataPoint>,
    now: int,
)
    requires
        measure is ClaudeTokens || measure is ClaudeCost || measure is CodexTurns
            || measure is Nothing,
    ensures
        super::model::histogram_points_taken(u, service, measure, points, now).usage == u,
        super::model::histogram_points_taken(u, service, measure, points, now).hits == 0,
    decreases points.len(),
{
    if points.len() > 0 {
        lemma_idle_histogram_points(u, service, measure, points.drop_last(), now);
        reveal(super::model::histogram_point_taken);
    }
}

/// Taking in a batch of metrics, and then another one, leaves the same totals as taking in
/// the resources of both in one batch, and as many samples are counted in all.
pub proof fn law_ingesting_metrics_in_parts(
    whole: &mut super::Aggregator,
    first: &mut super::Aggregator,
    second: &mut super::Aggregator,
    all: crate::otlp::MetricsRequest,
    p: crate::otlp::MetricsRequest,
    q: crate::otlp::MetricsRequest,
    now: i128,
    r: usize,
    a: usize,
    b: usize,
)
    requires
        call_ensures(super::Aggregator::ingest_metrics_at, (whole, &all, now), r),
        call_ensures(super::Aggregator::ingest_metrics_at, (first, &p, now), a),
        call_ensures(super::Aggregator::ingest_metrics_at, (second, &q, now), b),
        old(first)@ == old(whole)@,
        old(second)@ == final(first)@,
        all.resource_metrics@ == p.resource_metrics@ + q.resource_metrics@,
    ensures
        final(whole)@ == final(second)@,
        a + b <= usize::MAX && a < usize::MAX && b < usize::MAX ==> r == a + b,
{
    law_resources_of_metrics_add_up(
        old(whole)@,
        p.resource_metrics@,
        q.resource_metrics@,
        now as int,
    );
}

/// Taking in a batch of log records, and then another one, leaves the same totals as taking
/// in the resources of both in one batch, and as many samples are counted in all.
pub proof fn law_ingesting_logs_in_parts(
    whole: &mut super::Aggregator,
    first: &mut super::Aggregator,
    second: &mut super::Aggregator,
    all: crate::otlp::LogsRequest,
    p: crate::otlp::LogsRequest,
    q: crate::otlp::LogsRequest,
    now: i128,
    r: usize,
    a: usize,
    b: usize,
)
    requires
        call_ensures(super::Aggregator::ingest_logs_at, (whole, &all, now), r),
        call_ensures(super::Aggregator::ingest_logs_at, (first, &p, now), a),
        call_ensures(super::Aggregator::ingest_logs_at, (second, &q, now), b),
        old(first)@ == old(whole)@,
        old(second)@ == final(first)@,
        all.resource_logs@ == p.resource_logs@ + q.resource_logs@,
    ensures
        final(whole)@ == final(second)@,
        a + b <= usize::MAX && a < usize::MAX && b < usize::MAX ==> r == a + b,
{
    law_resources_of_logs_add_up(old(whole)@, p.resource_logs@, q.resource_logs@, now as int);
}

/// Taking in a batch of spans, and then another one, leaves the same totals as taking in the
/// resources of both in one batch, and as many samples are counted in all.
pub proof fn law_ingesting_spans_in_parts(
    whole: &mut super::Aggregator,
    first: &mut super::Aggregator,
    second: &mut super::Aggregator,
    all: crate::otlp::TraceRequest,
    p: crate::otlp::TraceRequest,
    q: crate::otlp::TraceRequest,
    r: usize,
    a: usize,
    b: usize,
)
    requires
        call_ensures(super::Aggregator::ingest_traces, (whole, &all), r),
        call_ensures(super::Aggregator::ingest_traces, (first, &p), a),
        call_ensures(super::Aggregator::ingest_traces, (second, &q), b),
        old(first)@ == old(whole)@,
        old(second)@ == final(first)@,
        all.resource_spans@ == p.resource_spans@ + q.resource_spans@,
    ensures
        final(whole)@ == final(second)@,
        a + b <= usize::MAX && a < usize::MAX && b < usize::MAX ==> r == a + b,
{
    law_resources_of_spans_add_up(old(whole)@, p.resource_spans@, q.resource_spans@);
}

/// A batch with one token metric of a Codex process, whose models are not counted from
/// logs, makes each token counter of the Codex total grow by the sum of the point values of
/// its type.
pub proof fn law_ingesting_codex_tokens(
    aggregator: &mut super::Aggregator,
    req: crate::otlp::MetricsRequest,
    now: i128,
    r: usize,
)
    requires
        call_ensures(super::Aggregator::ingest_metrics_at, (aggregator, &req, now), r),
        req.resource_metrics@.len() == 1,
        one_of_codex(crate::otlp::service_of(req.resource_metrics@[0].resource)),
        req.resource_metrics@[0].scope_metrics@.len() == 1,
        req.resource_metrics@[0].scope_metrics@[0].metrics@.len() == 1,
        ({
            let metric = req.resource_metrics@[0].scope_metrics@[0].metrics@[0];
            &&& metric.name@ == "codex.turn.token_usage"@
            &&& metric.data matches Some(MetricData::Histogram(h)) && h.aggregation_temporality == 1
                && open_to_metrics(old(aggregator)@, h.data_points@)
        }),
    ensures
        ({
            let metric = req.resource_metrics@[0].scope_metrics@[0].metrics@[0];
            let points = metric.data->0->Histogram_0.data_points@;
            let (a, b) = (old(aggregator)@.codex.total, final(aggregator)@.codex.total);
            &&& b.input_tokens == capped(a.input_tokens + codex_tokens(points, "input"@))
            &&& b.output_tokens == capped(a.output_tokens + codex_tokens(points, "output"@))
            &&& b.cache_read_tokens == capped(
                a.cache_read_tokens + codex_tokens(points, "cached_input"@),
            )
            &&& b.cache_creation_tokens == capped(
                a.cache_creation_tokens + codex_tokens(points, "cache_write_input"@),
            )
            &&& b.reasoning_output_tokens == capped(
                a.reasoning_output_tokens + codex_tokens(points, "reasoning_output"@),
            )
        }),
{
    let resource = req.resource_metrics@[0];
    let u = old(aggregator)@;
    assert(req.resource_metrics@ =~= seq![resource]);
    law_a_single_metric_counts(u, resource, now as int);
    law_codex_tokens_add_up(
        u,
        crate::otlp::service_of(resource.resource),
        resource.scope_metrics@[0].metrics@[0],
        now as int,
    );
}

} // verus!
