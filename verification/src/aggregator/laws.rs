//! What holds of the totals across samples and batches.

use super::conservation::Counter;
use super::model::{AgentView, Measure, PendingView, SessionView, Source, UsageView};
use super::stats::{BucketId, ModelStats};
use crate::otlp::{
    Event, HistogramDataPoint, KeyValue, LogRecord, Metric, MetricData, NumberDataPoint,
    ResourceLogs, ResourceMetrics, ResourceSpans, ScopeLogs, ScopeMetrics, ScopeSpans, Span,
};
use vstd::prelude::*;

verus! {

/// Whether conversations are kept under their own ids.
pub open spec fn sessions_keyed(u: UsageView) -> bool {
    forall|k: Seq<char>| #[trigger]
        u.sessions.dom().contains(k) ==> u.sessions[k].conversation_id == k && k.len() > 0
}

/// What never changes back: the source that counts for a Codex model, an
/// Anthropic model and effort that is counted from logs, the totals of Codex,
/// that its buckets add up to them, that conversations are kept under their own
/// ids, that buckets have names, and that an agent was heard of.
pub open spec fn keeps(u: UsageView, v: UsageView) -> bool {
    &&& forall|m: Seq<char>| #[trigger]
        u.codex_sources.dom().contains(m) ==> v.codex_sources.dom().contains(m)
            && v.codex_sources[m] == u.codex_sources[m]
    &&& forall|k: (Seq<char>, Seq<char>)| #[trigger]
        u.claude_sources.dom().contains(k) && u.claude_sources[k] == Source::Logs
            ==> v.claude_sources.dom().contains(k) && v.claude_sources[k] == Source::Logs
    &&& u.codex.total.at_most(v.codex.total)
    &&& super::conservation::keeps_balance(u, v)
    &&& sessions_keyed(u) ==> sessions_keyed(v)
    &&& super::naming::keeps_names(u, v)
}

proof fn lemma_keeps_transitive(u: UsageView, v: UsageView, w: UsageView)
    requires
        keeps(u, v),
        keeps(v, w),
    ensures
        keeps(u, w),
{
    assert forall|m: Seq<char>| #[trigger] u.codex_sources.dom().contains(m) implies
        w.codex_sources.dom().contains(m) && w.codex_sources[m] == u.codex_sources[m] by {
        assert(v.codex_sources.dom().contains(m));
    }
    assert forall|k: (Seq<char>, Seq<char>)| #[trigger]
        u.claude_sources.dom().contains(k) && u.claude_sources[k] == Source::Logs implies
        w.claude_sources.dom().contains(k) && w.claude_sources[k] == Source::Logs by {
        assert(v.claude_sources.dom().contains(k));
    }
    assert forall|c: Counter| #[trigger]
        super::conservation::balanced(u, c) && c.of(w.codex.total) < c.limit() implies
        super::conservation::balanced(w, c) by {
        assert(super::conservation::balanced(v, c));
    }
}

/// Settling pending usage keeps the total of the agent.
pub proof fn law_settling_keeps_the_total(a: AgentView, pending: Seq<PendingView>, s: SessionView)
    ensures
        super::model::settle(a, pending, s).0.total == a.total,
    decreases pending.len(),
{
    if pending.len() > 0 {
        law_settling_keeps_the_total(a, pending.drop_last(), s);
    }
}

/// What becomes known of a conversation counts nothing.
proof fn lemma_conversation_counts_nothing(u: UsageView, v: UsageView, s: SessionView)
    requires
        v == super::model::attributed(
            (UsageView {
                sessions: v.sessions,
                last_sessions: v.last_sessions,
                last_session: v.last_session,
                ..u
            }),
            s,
        ),
        v.sessions == u.sessions || v.sessions == u.sessions.insert(s.conversation_id, s),
        v.sessions != u.sessions && sessions_keyed(u) ==> s.conversation_id.len() > 0,
    ensures
        counts_nothing(u, v),
{
    let noted = UsageView {
        sessions: v.sessions,
        last_sessions: v.last_sessions,
        last_session: v.last_session,
        ..u
    };
    law_settling_keeps_the_total(u.codex, u.pending, s);
    super::conservation::lemma_attributing_keeps_balance(u, noted, s);
    super::naming::lemma_attributing_keeps_names(u, noted, s);
    if sessions_keyed(u) {
        assert forall|k: Seq<char>| #[trigger] v.sessions.dom().contains(k) implies
            v.sessions[k].conversation_id == k && k.len() > 0 by {
            assert(k == s.conversation_id || u.sessions.dom().contains(k));
        }
    }
}

proof fn lemma_sse_keeps(u: UsageView, attrs: Seq<KeyValue>, now: int)
    ensures
        keeps(u, super::model::sse_completed(u, attrs, now).usage),
{
    let v = super::model::sse_completed(u, attrs, now).usage;
    let b = super::model::sse_bucket(u, attrs);
    if super::model::is_sse_usage(attrs) && super::model::codex_counts(u, b.model, Source::Logs) {
        super::conservation::lemma_sample_keeps_balance(
            u,
            v,
            b,
            crate::otlp::text_attr_or_empty(attrs, "conversation.id"@),
            super::model::sse_stats(attrs),
            now,
        );
        let session = super::model::sse_session(u, attrs);
        super::naming::lemma_bucket_is_labelled(
            super::model::provider_of(session),
            super::model::or_else(
                crate::otlp::text_attr_or_empty(attrs, "model"@),
                super::model::or_else(
                    crate::otlp::text_attr_or_empty(attrs, "slug"@),
                    super::model::model_of(session),
                ),
            ),
            super::model::or_else(
                crate::otlp::text_attr_or_empty(attrs, "model_reasoning_effort"@),
                super::model::effort_of(session),
            ),
        );
        super::naming::lemma_codex_sample_keeps_names(
            u,
            v,
            b,
            crate::otlp::text_attr_or_empty(attrs, "conversation.id"@),
            super::model::sse_stats(attrs),
        );
    }
}

proof fn lemma_request_keeps_names(u: UsageView, attrs: Seq<KeyValue>, now: int)
    ensures
        ({
            let b = super::model::claude_request_bucket(u, attrs);
            super::naming::keeps_names(
                u,
                super::model::claude_log_usage(
                    super::model::claude_recorded(
                        u,
                        b,
                        super::model::claude_request_stats(attrs),
                        now,
                    ),
                    b,
                    super::model::claude_usage_stats(attrs),
                    now,
                ),
            )
        }),
{
    let b = super::model::claude_request_bucket(u, attrs);
    let s = super::model::claude_request_stats(attrs);
    let v = super::model::claude_recorded(u, b, s, now);
    super::naming::lemma_bucket_is_labelled(
        "anthropic"@,
        super::model::canonical_model(u, crate::otlp::text_attr_or_empty(attrs, "model"@)),
        crate::otlp::text_attr_or_empty(attrs, "effort"@),
    );
    super::naming::lemma_claude_sample_keeps_names(u, v, b, s);
    super::naming::lemma_claude_log_keeps_names(
        v,
        b,
        super::model::claude_usage_stats(attrs),
        now,
    );
}

proof fn lemma_log_keeps(u: UsageView, service: Seq<char>, log: LogRecord, now: int)
    ensures
        keeps(u, super::model::log_taken(u, service, log, now).usage),
{
    reveal(super::model::log_taken);
    let attrs = log.attributes@;
    if service == crate::agent::claude_code() {
        let v = super::model::claude_log(u, log, now).usage;
        super::conservation::lemma_untouched_keeps_balance(u, v);
        if super::model::is_claude_request(log) {
            lemma_request_keeps_names(u, attrs, now);
        }
    } else if super::model::is_codex(service) {
        let known = if super::model::starts_conversation(log) && super::model::session_of(
            attrs,
        ) is Some {
            let v = super::model::session_known(u, service, super::model::session_of(attrs)->0);
            lemma_conversation_counts_nothing(u, v, super::model::session_of(attrs)->0);
            v
        } else {
            u
        };
        lemma_sse_keeps(known, attrs, now);
        lemma_keeps_transitive(
            u,
            known,
            super::model::sse_completed(known, attrs, now).usage,
        );
    }
}

proof fn lemma_records_keep(u: UsageView, service: Seq<char>, logs: Seq<LogRecord>, now: int)
    ensures
        keeps(u, super::model::records_taken(u, service, logs, now).usage),
    decreases logs.len(),
{
    if logs.len() > 0 {
        lemma_records_keep(u, service, logs.drop_last(), now);
        let v = super::model::records_taken(u, service, logs.drop_last(), now).usage;
        lemma_log_keeps(v, service, logs.last(), now);
        lemma_keeps_transitive(
            u,
            v,
            super::model::log_taken(v, service, logs.last(), now).usage,
        );
    }
}

proof fn lemma_scope_logs_keep(u: UsageView, service: Seq<char>, scopes: Seq<ScopeLogs>, now: int)
    ensures
        keeps(u, super::model::scope_logs_taken(u, service, scopes, now).usage),
    decreases scopes.len(),
{
    if scopes.len() > 0 {
        lemma_scope_logs_keep(u, service, scopes.drop_last(), now);
        let v = super::model::scope_logs_taken(u, service, scopes.drop_last(), now).usage;
        lemma_records_keep(v, service, scopes.last().log_records@, now);
        lemma_keeps_transitive(
            u,
            v,
            super::model::records_taken(v, service, scopes.last().log_records@, now).usage,
        );
    }
}

/// Log batches never change which source counts for a Codex model, never turn an
/// Anthropic model and effort back from logs to metrics, never lower a total of
/// Codex, and leave its buckets adding up to it.
pub proof fn law_logs_keep(u: UsageView, resources: Seq<ResourceLogs>, now: int)
    ensures
        keeps(u, super::model::logs_taken(u, resources, now).usage),
    decreases resources.len(),
{
    if resources.len() > 0 {
        law_logs_keep(u, resources.drop_last(), now);
        let v = super::model::logs_taken(u, resources.drop_last(), now).usage;
        let r = resources.last();
        let service = crate::otlp::service_of(r.resource);
        lemma_scope_logs_keep(v, service, r.scope_logs@, now);
        lemma_keeps_transitive(
            u,
            v,
            super::model::scope_logs_taken(v, service, r.scope_logs@, now).usage,
        );
    }
}

/// Whether spans left all but what is known of conversations as it was: usage of
/// Codex at most moved between buckets of one model.
pub open spec fn counts_nothing(u: UsageView, v: UsageView) -> bool {
    &&& keeps(u, v)
    &&& v.codex.total == u.codex.total
    &&& super::conservation::keeps_model_sums(u, v)
    &&& super::naming::pending_is_counted(u) && super::naming::is_heard_of(v.codex)
        ==> super::naming::is_heard_of(u.codex)
    &&& v.claude == u.claude
    &&& v.canonical == u.canonical
    &&& v.claude_sources == u.claude_sources
    &&& v.claude_metrics == u.claude_metrics
    &&& v.codex_sources == u.codex_sources
    &&& v.last_updated == u.last_updated
}

proof fn lemma_nothing_transitive(u: UsageView, v: UsageView, w: UsageView)
    requires
        counts_nothing(u, v),
        counts_nothing(v, w),
    ensures
        counts_nothing(u, w),
{
    lemma_keeps_transitive(u, v, w);
    assert forall|c: Counter, model: Seq<char>|
        super::conservation::balanced(u, c) && c.of(u.codex.total)
            < c.limit() implies #[trigger] super::conservation::model_sum(
        w.codex.buckets,
        model,
        c,
    ) == super::conservation::model_sum(u.codex.buckets, model, c) by {
        assert(super::conservation::balanced(v, c));
        assert(super::conservation::model_sum(v.codex.buckets, model, c)
            == super::conservation::model_sum(u.codex.buckets, model, c));
    }
}

proof fn lemma_events_count_nothing(u: UsageView, service: Seq<char>, events: Seq<Event>)
    ensures
        counts_nothing(u, super::model::events_taken(u, service, events).usage),
    decreases events.len(),
{
    if events.len() > 0 {
        lemma_events_count_nothing(u, service, events.drop_last());
        let v = super::model::events_taken(u, service, events.drop_last()).usage;
        let ev = events.last();
        if super::model::event_starts_conversation(ev) && super::model::session_of(
            ev.attributes@,
        ) is Some {
            let s = super::model::session_of(ev.attributes@)->0;
            let w = super::model::session_known(v, service, s);
            lemma_conversation_counts_nothing(v, w, s);
            lemma_nothing_transitive(u, v, w);
        }
    }
}

proof fn lemma_span_counts_nothing(u: UsageView, service: Seq<char>, span: Span)
    ensures
        counts_nothing(u, super::model::span_taken(u, service, span).usage),
{
    reveal(super::model::span_taken);
    lemma_events_count_nothing(u, service, span.events@);
    let v = super::model::events_taken(u, service, span.events@).usage;
    let s = super::model::span_session(v, span.attributes@);
    let w = super::model::effort_seen(v, service, span.attributes@).usage;
    if w != v {
        lemma_conversation_counts_nothing(v, w, s);
        lemma_nothing_transitive(u, v, w);
    }
}

proof fn lemma_spans_count_nothing(u: UsageView, service: Seq<char>, spans: Seq<Span>)
    ensures
        counts_nothing(u, super::model::spans_taken(u, service, spans).usage),
    decreases spans.len(),
{
    if spans.len() > 0 {
        lemma_spans_count_nothing(u, service, spans.drop_last());
        let v = super::model::spans_taken(u, service, spans.drop_last()).usage;
        lemma_span_counts_nothing(v, service, spans.last());
        lemma_nothing_transitive(
            u,
            v,
            super::model::span_taken(v, service, spans.last()).usage,
        );
    }
}

proof fn lemma_scope_spans_count_nothing(u: UsageView, service: Seq<char>, scopes: Seq<ScopeSpans>)
    ensures
        counts_nothing(u, super::model::scope_spans_taken(u, service, scopes).usage),
    decreases scopes.len(),
{
    if scopes.len() > 0 {
        lemma_scope_spans_count_nothing(u, service, scopes.drop_last());
        let v = super::model::scope_spans_taken(u, service, scopes.drop_last()).usage;
        lemma_spans_count_nothing(v, service, scopes.last().spans@);
        lemma_nothing_transitive(
            u,
            v,
            super::model::spans_taken(v, service, scopes.last().spans@).usage,
        );
    }
}

/// Spans are no usage: they change no total, no Anthropic counter, not which
/// agents were heard of and not the time of the last sample. Usage of Codex at
/// most moves between buckets of one model: over the buckets of a model the sum
/// of each counter stays.
pub proof fn law_spans_count_nothing(u: UsageView, resources: Seq<ResourceSpans>)
    ensures
        counts_nothing(u, super::model::traces_taken(u, resources).usage),
    decreases resources.len(),
{
    if resources.len() > 0 {
        law_spans_count_nothing(u, resources.drop_last());
        let v = super::model::traces_taken(u, resources.drop_last()).usage;
        let r = resources.last();
        let service = crate::otlp::service_of(r.resource);
        lemma_scope_spans_count_nothing(v, service, r.scope_spans@);
        lemma_nothing_transitive(
            u,
            v,
            super::model::scope_spans_taken(v, service, r.scope_spans@).usage,
        );
    }
}

proof fn lemma_claude_point_keeps_names(
    u: UsageView,
    measure: Measure,
    dp: NumberDataPoint,
    now: int,
)
    ensures
        measure is ClaudeTokens ==> super::naming::keeps_names(
            u,
            super::model::claude_token_point(u, dp, now).usage,
        ),
        measure is ClaudeCost ==> super::naming::keeps_names(
            u,
            super::model::claude_cost_point(u, dp, now).usage,
        ),
{
    let attrs = dp.attributes@;
    let b = super::model::claude_point_bucket(attrs);
    let model = crate::otlp::text_attr_or_empty(attrs, "model"@);
    let seen = super::model::claude_model_seen(u, model);
    super::naming::lemma_model_seen_keeps_names(u, model);
    super::naming::lemma_bucket_is_labelled(
        "anthropic"@,
        model,
        crate::otlp::text_attr_or_empty(attrs, "effort"@),
    );
    let kind = crate::otlp::text_attr_or_empty(attrs, "type"@);
    let v = if measure is ClaudeTokens {
        super::model::claude_token_point(u, dp, now).usage
    } else {
        super::model::claude_cost_point(u, dp, now).usage
    };
    let s = if measure is ClaudeTokens {
        super::model::claude_token_stats(kind, super::model::point_counter(dp))->0
    } else {
        ModelStats { cost_usd: super::model::point_usd(dp), ..super::stats::no_stats() }
    };
    if v != seen {
        super::naming::lemma_claude_sample_keeps_names(seen, v, b, s);
    }
}

proof fn lemma_number_point_keeps(
    u: UsageView,
    service: Seq<char>,
    measure: Measure,
    dp: NumberDataPoint,
    now: int,
)
    ensures
        keeps(u, super::model::number_point_taken(u, service, measure, dp, now).usage),
{
    reveal(super::model::number_point_taken);
    let v = super::model::number_point_taken(u, service, measure, dp, now).usage;
    if measure is CodexTurns {
        let session = super::model::session_at(u.last_sessions, service);
        let s = ModelStats {
            request_count: super::model::point_counter(dp),
            ..super::stats::no_stats()
        };
        super::conservation::lemma_sample_keeps_balance(
            u,
            v,
            super::model::codex_point_bucket(u, service, dp.attributes@),
            Seq::empty(),
            s,
            now,
        );
        super::naming::lemma_bucket_is_labelled(
            super::model::provider_of(session),
            crate::otlp::text_attr_or_empty(dp.attributes@, "model"@),
            super::model::effort_of(session),
        );
        super::naming::lemma_codex_sample_keeps_names(
            u,
            v,
            super::model::codex_point_bucket(u, service, dp.attributes@),
            Seq::empty(),
            s,
        );
    } else {
        super::conservation::lemma_untouched_keeps_balance(u, v);
        lemma_claude_point_keeps_names(u, measure, dp, now);
    }
}

proof fn lemma_histogram_point_keeps(
    u: UsageView,
    service: Seq<char>,
    measure: Measure,
    dp: HistogramDataPoint,
    now: int,
)
    ensures
        keeps(u, super::model::histogram_point_taken(u, service, measure, dp, now).usage),
{
    reveal(super::model::histogram_point_taken);
    let v = super::model::histogram_point_taken(u, service, measure, dp, now).usage;
    let b = super::model::codex_point_bucket(u, service, dp.attributes@);
    let n = super::model::histogram_counter(dp);
    let session = super::model::session_at(u.last_sessions, service);
    super::naming::lemma_bucket_is_labelled(
        super::model::provider_of(session),
        crate::otlp::text_attr_or_empty(dp.attributes@, "model"@),
        super::model::effort_of(session),
    );
    if measure is CodexDuration {
        let s = ModelStats { duration_ms: n, ..super::stats::no_stats() };
        super::naming::lemma_codex_sample_keeps_names(u, v, b, Seq::empty(), s);
        super::conservation::lemma_sample_keeps_balance(
            u,
            v,
            b,
            Seq::empty(),
            s,
            now,
        );
    } else if measure is CodexTokens && v.codex != u.codex {
        let kind = crate::otlp::text_attr_or_empty(dp.attributes@, "token_type"@);
        let s = super::model::codex_token_stats(kind, n)->0;
        super::naming::lemma_codex_sample_keeps_names(u, v, b, Seq::empty(), s);
        super::conservation::lemma_sample_keeps_balance(
            u,
            v,
            b,
            Seq::empty(),
            s,
            now,
        );
    } else {
        super::conservation::lemma_untouched_keeps_balance(u, v);
    }
}

proof fn lemma_number_points_keep(
    u: UsageView,
    service: Seq<char>,
    measure: Measure,
    points: Seq<NumberDataPoint>,
    now: int,
)
    ensures
        keeps(u, super::model::number_points_taken(u, service, measure, points, now).usage),
    decreases points.len(),
{
    if points.len() > 0 {
        lemma_number_points_keep(u, service, measure, points.drop_last(), now);
        let v = super::model::number_points_taken(
            u,
            service,
            measure,
            points.drop_last(),
            now,
        ).usage;
        let w = super::model::number_point_taken(v, service, measure, points.last(), now).usage;
        lemma_number_point_keeps(v, service, measure, points.last(), now);
        lemma_keeps_transitive(u, v, w);
    }
}

proof fn lemma_histogram_points_keep(
    u: UsageView,
    service: Seq<char>,
    measure: Measure,
    points: Seq<HistogramDataPoint>,
    now: int,
)
    ensures
        keeps(u, super::model::histogram_points_taken(u, service, measure, points, now).usage),
    decreases points.len(),
{
    if points.len() > 0 {
        lemma_histogram_points_keep(u, service, measure, points.drop_last(), now);
        let v = super::model::histogram_points_taken(
            u,
            service,
            measure,
            points.drop_last(),
            now,
        ).usage;
        let w = super::model::histogram_point_taken(v, service, measure, points.last(), now).usage;
        lemma_histogram_point_keeps(v, service, measure, points.last(), now);
        lemma_keeps_transitive(u, v, w);
    }
}

proof fn lemma_metric_list_keeps(u: UsageView, service: Seq<char>, metrics: Seq<Metric>, now: int)
    ensures
        keeps(u, super::model::metric_list_taken(u, service, metrics, now).usage),
    decreases metrics.len(),
{
    reveal(super::model::metric_taken);
    if metrics.len() > 0 {
        lemma_metric_list_keeps(u, service, metrics.drop_last(), now);
        let v = super::model::metric_list_taken(u, service, metrics.drop_last(), now).usage;
        let metric = metrics.last();
        let measure = super::model::measure_of(service, metric.name@);
        match metric.data {
            Some(MetricData::Sum(sum)) => {
                lemma_number_points_keep(v, service, measure, sum.data_points@, now);
            },
            Some(MetricData::Histogram(hist)) => {
                lemma_histogram_points_keep(v, service, measure, hist.data_points@, now);
            },
            _ => {},
        }
        lemma_keeps_transitive(
            u,
            v,
            super::model::metric_taken(v, service, metric, now).usage,
        );
    }
}

proof fn lemma_scope_metrics_keep(
    u: UsageView,
    service: Seq<char>,
    scopes: Seq<ScopeMetrics>,
    now: int,
)
    ensures
        keeps(u, super::model::scope_metrics_taken(u, service, scopes, now).usage),
    decreases scopes.len(),
{
    if scopes.len() > 0 {
        lemma_scope_metrics_keep(u, service, scopes.drop_last(), now);
        let v = super::model::scope_metrics_taken(u, service, scopes.drop_last(), now).usage;
        lemma_metric_list_keeps(v, service, scopes.last().metrics@, now);
        lemma_keeps_transitive(
            u,
            v,
            super::model::metric_list_taken(v, service, scopes.last().metrics@, now).usage,
        );
    }
}

/// Metric batches never change which source counts for a Codex model, never
/// turn an Anthropic model and effort back from logs to metrics, never lower a
/// total of Codex, and leave its buckets adding up to it.
pub proof fn law_metrics_keep(u: UsageView, resources: Seq<ResourceMetrics>, now: int)
    ensures
        keeps(u, super::model::metrics_taken(u, resources, now).usage),
    decreases resources.len(),
{
    if resources.len() > 0 {
        law_metrics_keep(u, resources.drop_last(), now);
        let v = super::model::metrics_taken(u, resources.drop_last(), now).usage;
        let r = resources.last();
        let service = crate::otlp::service_of(r.resource);
        lemma_scope_metrics_keep(v, service, r.scope_metrics@, now);
        lemma_keeps_transitive(
            u,
            v,
            super::model::scope_metrics_taken(v, service, r.scope_metrics@, now).usage,
        );
    }
}

/// Once an Anthropic model and effort is counted from logs, its metrics change
/// nothing.
pub proof fn law_claude_logs_shut_out_metrics(u: UsageView, b: BucketId, s: ModelStats, now: int)
    requires
        u.claude_sources.dom().contains(super::model::claude_source_key(b)),
        u.claude_sources[super::model::claude_source_key(b)] == Source::Logs,
    ensures
        super::model::claude_metric_usage(u, b, s, now).usage == u,
        super::model::claude_metric_usage(u, b, s, now).hits == 0,
{
}

/// The state after metric samples, each with its bucket, one after another.
pub open spec fn metric_samples_taken(
    u: UsageView,
    samples: Seq<(BucketId, ModelStats)>,
    now: int,
) -> UsageView
    decreases samples.len(),
{
    if samples.len() == 0 {
        u
    } else {
        super::model::claude_metric_usage(
            metric_samples_taken(u, samples.drop_last(), now),
            samples.last().0,
            samples.last().1,
            now,
        ).usage
    }
}

/// The sum of those samples that carry usage.
pub open spec fn usage_sum(samples: Seq<(BucketId, ModelStats)>) -> ModelStats
    decreases samples.len(),
{
    if samples.len() == 0 {
        super::stats::no_stats()
    } else if samples.last().1.spec_has_usage() {
        usage_sum(samples.drop_last()).plus(samples.last().1)
    } else {
        usage_sum(samples.drop_last())
    }
}

/// Whether all samples are of one bucket.
pub open spec fn all_in(samples: Seq<(BucketId, ModelStats)>, b: BucketId) -> bool {
    forall|i: int| 0 <= i < samples.len() ==> (#[trigger] samples[i]).0 == b
}

/// Whether all samples compete with the same logs.
pub open spec fn all_keyed(
    samples: Seq<(BucketId, ModelStats)>,
    key: (Seq<char>, Seq<char>),
) -> bool {
    forall|i: int|
        0 <= i < samples.len() ==> super::model::claude_source_key((#[trigger] samples[i]).0)
            == key
}

proof fn lemma_metric_samples(
    u: UsageView,
    b: BucketId,
    samples: Seq<(BucketId, ModelStats)>,
    now: int,
)
    requires
        !u.claude_sources.dom().contains(super::model::claude_source_key(b)),
        !u.claude_metrics.dom().contains(super::model::claude_source_key(b)),
        all_keyed(samples, super::model::claude_source_key(b)),
    ensures
        ({
            let v = metric_samples_taken(u, samples, now);
            let key = super::model::claude_source_key(b);
            let sum = usage_sum(samples);
            ||| v == u && sum == super::stats::no_stats()
            ||| {
                &&& v.claude_sources.dom().contains(key) && v.claude_sources[key]
                    == Source::Metrics
                &&& v.claude_metrics.dom().contains(key) && v.claude_metrics[key] == sum
                &&& v.claude.total == u.claude.total.plus(sum)
                &&& all_in(samples, b) ==> v.claude == super::model::recorded(u.claude, b, sum)
                &&& v.canonical == u.canonical
            }
        }),
    decreases samples.len(),
{
    if samples.len() > 0 {
        let front = samples.drop_last();
        assert forall|i: int| 0 <= i < front.len() implies super::model::claude_source_key(
            (#[trigger] front[i]).0,
        ) == super::model::claude_source_key(b) by {
            assert(front[i] == samples[i]);
        }
        lemma_metric_samples(u, b, front, now);
        let v = metric_samples_taken(u, front, now);
        let w = metric_samples_taken(u, samples, now);
        let sum = usage_sum(front);
        let s = samples.last().1;
        assert(super::model::claude_source_key(samples[samples.len() - 1].0)
            == super::model::claude_source_key(b));
        if s.spec_has_usage() {
            assert(u.claude.total.plus(sum).plus(s) == u.claude.total.plus(sum.plus(s)));
            assert(super::stats::no_stats().plus(s) == s);
            if all_in(samples, b) {
                assert(all_in(front, b)) by {
                    assert forall|i: int| 0 <= i < front.len() implies (#[trigger] front[i]).0
                        == b by {
                        assert(front[i] == samples[i]);
                    }
                }
                assert(samples[samples.len() - 1].0 == b);
                let held = super::model::stats_at(u.claude.buckets, b);
                assert(held.plus(sum).plus(s) == held.plus(sum.plus(s)));
                assert(w.claude.buckets =~= super::model::recorded(
                    u.claude,
                    b,
                    usage_sum(samples),
                ).buckets);
            }
        } else if all_in(samples, b) {
            assert(all_in(front, b)) by {
                assert forall|i: int| 0 <= i < front.len() implies (#[trigger] front[i]).0 == b by {
                    assert(front[i] == samples[i]);
                }
            }
        }
    }
}

/// An Anthropic request log replaces what metrics had counted for its model and
/// effort: however many samples there were, and for whichever variants of the
/// model, the total is that of the log alone, as if no metric had come. Where
/// the samples were of the bucket of the log, so are all buckets. (Where a
/// counter has gone beyond its limit, what was added to it is no longer known.)
pub proof fn law_claude_log_replaces_metrics(
    u: UsageView,
    log: LogRecord,
    samples: Seq<(BucketId, ModelStats)>,
    now: int,
    later: int,
)
    requires
        super::model::is_claude_request(log),
        super::model::claude_usage_stats(log.attributes@).spec_has_usage(),
        ({
            let b = super::model::claude_request_bucket(u, log.attributes@);
            let key = super::model::claude_source_key(b);
            let request = super::model::claude_request_stats(log.attributes@);
            &&& !u.claude_sources.dom().contains(key)
            &&& !u.claude_metrics.dom().contains(key)
            &&& all_keyed(samples, key)
            &&& u.claude.total.plus(request).has_room_for(usage_sum(samples))
        }),
    ensures
        ({
            let b = super::model::claude_request_bucket(u, log.attributes@);
            let request = super::model::claude_request_stats(log.attributes@);
            let counted = metric_samples_taken(u, samples, now);
            let with = super::model::claude_log(counted, log, later).usage.claude;
            let without = super::model::claude_log(u, log, later).usage.claude;
            &&& with.total == without.total
            &&& all_in(samples, b) && super::model::stats_at(u.claude.buckets, b).plus(
                request,
            ).has_room_for(usage_sum(samples)) ==> with == without
        }),
{
    let b = super::model::claude_request_bucket(u, log.attributes@);
    let request = super::model::claude_request_stats(log.attributes@);
    let sum = usage_sum(samples);
    let counted = metric_samples_taken(u, samples, now);
    lemma_metric_samples(u, b, samples, now);
    if counted != u {
        let held = super::model::stats_at(u.claude.buckets, b);
        assert(u.claude.total.plus(sum).plus(request) == u.claude.total.plus(request).plus(sum));
        super::stats::law_subtracting_undoes_adding(u.claude.total.plus(request), sum);
        let l = super::model::claude_log(counted, log, later).usage.claude;
        let r = super::model::claude_log(u, log, later).usage.claude;
        assert(l.total == r.total);
        if all_in(samples, b) && held.plus(request).has_room_for(sum) {
            assert(held.plus(sum).plus(request) == held.plus(request).plus(sum));
            super::stats::law_subtracting_undoes_adding(held.plus(request), sum);
            assert(l.buckets =~= r.buckets);
        }
    }
}

/// Once a metric has shown the full name of an Anthropic model, requests under
/// the bare name count under the full one. What was counted under the bare name
/// before is found under the full name, and no bucket of the bare name is left.
pub proof fn law_requests_take_the_full_name(
    u: UsageView,
    full: Seq<char>,
    attrs: Seq<KeyValue>,
    k: BucketId,
)
    requires
        crate::text::before(full, '[').len() > 0,
        crate::text::before(full, '[') != full,
    ensures
        ({
            let bare = crate::text::before(full, '[');
            let v = super::model::claude_model_seen(u, full);
            let told = u.canonical.dom().contains(bare) && u.canonical[bare] == full;
            let at = |x: UsageView, model: Seq<char>|
                super::model::stats_at(x.claude.buckets, BucketId { model, ..k });
            &&& crate::otlp::text_attr_or_empty(attrs, "model"@) == bare
                ==> super::model::claude_request_bucket(v, attrs).model == full
            &&& v.claude.total == u.claude.total
            &&& told ==> v == u
            &&& !told ==> at(v, full) == at(u, full).plus(at(u, bare))
            &&& !told ==> !v.claude.buckets.dom().contains(BucketId { model: bare, ..k })
            &&& k.model != bare && k.model != full ==> super::model::stats_at(v.claude.buckets, k)
                == super::model::stats_at(u.claude.buckets, k)
        }),
{
    let bare = crate::text::before(full, '[');
    let told = u.canonical.dom().contains(bare) && u.canonical[bare] == full;
    if full.len() == 0 {
        assert(bare =~= full);
    }
    if !told {
        let x = BucketId { model: full, ..k };
        let y = BucketId { model: bare, ..k };
        assert(BucketId { model: bare, ..x } =~= y);
        let held = super::model::stats_at(u.claude.buckets, x);
        assert(held.plus(super::stats::no_stats()) == held);
    }
}

/// Codex tokens are counted from one kind of telemetry per model: once metrics
/// count, SSE completions of the model change no total.
pub proof fn law_codex_metrics_shut_out_logs(
    u: UsageView,
    attrs: Seq<KeyValue>,
    now: int,
)
    requires
        u.codex_sources.dom().contains(super::model::sse_bucket(u, attrs).model),
        u.codex_sources[super::model::sse_bucket(u, attrs).model] == Source::Metrics,
    ensures
        super::model::sse_completed(u, attrs, now).usage == u,
        super::model::sse_completed(u, attrs, now).hits == 0,
{
}

/// Once SSE completions count for a Codex model, its token metrics change
/// nothing.
pub proof fn law_codex_logs_shut_out_metrics(
    u: UsageView,
    service: Seq<char>,
    dp: HistogramDataPoint,
    now: int,
)
    requires
        u.codex_sources.dom().contains(
            super::stats::known(crate::otlp::text_attr_or_empty(dp.attributes@, "model"@)),
        ),
        u.codex_sources[super::stats::known(
            crate::otlp::text_attr_or_empty(dp.attributes@, "model"@),
        )] == Source::Logs,
    ensures
        super::model::codex_token_point(u, service, dp, now).usage == u,
        super::model::codex_token_point(u, service, dp, now).hits == 0,
{
}

/// Moving counters between two buckets changes no other bucket and not the
/// total; what leaves the one arrives in the other.
pub proof fn law_moving_conserves(a: AgentView, from: BucketId, to: BucketId, s: ModelStats)
    requires
        from != to,
    ensures
        ({
            let b = super::model::moved(a, from, to, s);
            &&& b.total == a.total
            &&& super::model::stats_at(b.buckets, from) == super::model::stats_at(
                a.buckets,
                from,
            ).minus(s)
            &&& super::model::stats_at(b.buckets, to) == super::model::stats_at(
                a.buckets,
                to,
            ).plus(s)
            &&& forall|k: BucketId|
                k != from && k != to ==> #[trigger] super::model::stats_at(b.buckets, k)
                    == super::model::stats_at(a.buckets, k)
        }),
{
}

/// A conversation that becomes known moves usage of its own model only.
pub proof fn law_settling_leaves_other_models(
    a: AgentView,
    pending: Seq<PendingView>,
    s: SessionView,
    k: BucketId,
)
    requires
        k.model != s.model,
    ensures
        super::model::stats_at(super::model::settle(a, pending, s).0.buckets, k)
            == super::model::stats_at(a.buckets, k),
    decreases pending.len(),
{
    if pending.len() > 0 {
        law_settling_leaves_other_models(a, pending.drop_last(), s, k);
    }
}

/// Pending usage of one conversation.
pub open spec fn pending_of(pending: Seq<PendingView>, conversation_id: Seq<char>) -> Seq<
    PendingView,
>
    decreases pending.len(),
{
    if pending.len() == 0 {
        Seq::empty()
    } else {
        let front = pending_of(pending.drop_last(), conversation_id);
        if pending.last().conversation_id == conversation_id {
            front.push(pending.last())
        } else {
            front
        }
    }
}

proof fn lemma_pending_plus_leaves(
    pending: Seq<PendingView>,
    b: BucketId,
    id: Seq<char>,
    s: ModelStats,
    other: Seq<char>,
)
    requires
        other != id,
    ensures
        pending_of(super::model::pending_plus(pending, b, id, s), other) == pending_of(
            pending,
            other,
        ),
{
    let i = super::model::pending_position(pending, b, id, 0);
    lemma_pending_position(pending, b, id, 0);
    if i < pending.len() {
        lemma_update_leaves(
            pending,
            i,
            PendingView { stats: pending[i].stats.plus(s), ..pending[i] },
            other,
        );
    } else {
        let p = PendingView { bucket: b, conversation_id: id, stats: s };
        assert(pending.push(p).drop_last() =~= pending);
    }
}

/// Where pending usage is found, it is that of the bucket and conversation.
pub proof fn lemma_pending_position(
    pending: Seq<PendingView>,
    b: BucketId,
    id: Seq<char>,
    from: int,
)
    requires
        0 <= from,
    ensures
        ({
            let i = super::model::pending_position(pending, b, id, from);
            i < pending.len() ==> 0 <= i && pending[i].bucket == b && pending[i].conversation_id
                == id
        }),
    decreases pending.len() - from,
{
    if from < pending.len() {
        lemma_pending_position(pending, b, id, from + 1);
    }
}

proof fn lemma_update_leaves(pending: Seq<PendingView>, i: int, p: PendingView, other: Seq<char>)
    requires
        0 <= i < pending.len(),
        p.conversation_id == pending[i].conversation_id,
        other != p.conversation_id,
    ensures
        pending_of(pending.update(i, p), other) == pending_of(pending, other),
    decreases pending.len(),
{
    if i == pending.len() - 1 {
        assert(pending.update(i, p).drop_last() =~= pending.drop_last());
    } else {
        assert(pending.update(i, p).drop_last() =~= pending.drop_last().update(i, p));
        lemma_update_leaves(pending.drop_last(), i, p, other);
    }
}

/// A conversation that becomes known leaves what is pending for other
/// conversations as it is.
pub proof fn law_settling_leaves_other_conversations(
    a: AgentView,
    pending: Seq<PendingView>,
    s: SessionView,
    other: Seq<char>,
)
    requires
        other != s.conversation_id,
    ensures
        pending_of(super::model::settle(a, pending, s).1, other) == pending_of(pending, other),
    decreases pending.len(),
{
    if pending.len() > 0 {
        let front = pending.drop_last();
        law_settling_leaves_other_conversations(a, front, s, other);
        let kept = super::model::settle(a, front, s).1;
        let p = pending.last();
        if super::model::concerns(p, s) {
            lemma_pending_plus_leaves(
                kept,
                super::model::settled_bucket(p.bucket, s),
                p.conversation_id,
                p.stats,
                other,
            );
        } else {
            assert(kept.push(p).drop_last() =~= kept);
        }
    }
}

/// Data points that are not increments change nothing.
pub proof fn law_only_increments_count(u: UsageView, service: Seq<char>, metric: Metric, now: int)
    requires
        metric.data matches Some(MetricData::Sum(sum)) ==> sum.aggregation_temporality != 1,
        metric.data matches Some(MetricData::Histogram(hist)) ==> hist.aggregation_temporality
            != 1,
    ensures
        super::model::metric_taken(u, service, metric, now).usage == u,
        super::model::metric_taken(u, service, metric, now).hits == 0,
{
    reveal(super::model::metric_taken);
}

/// An SSE completion with a conversation id is put into the bucket of its own
/// conversation: whatever other conversations were reported does not matter.
pub proof fn law_sse_uses_its_own_conversation(
    u: UsageView,
    v: UsageView,
    attrs: Seq<KeyValue>,
)
    requires
        crate::otlp::text_attr_or_empty(attrs, "conversation.id"@).len() > 0,
        super::model::session_at(
            u.sessions,
            crate::otlp::text_attr_or_empty(attrs, "conversation.id"@),
        ) == super::model::session_at(
            v.sessions,
            crate::otlp::text_attr_or_empty(attrs, "conversation.id"@),
        ),
    ensures
        super::model::sse_bucket(u, attrs) == super::model::sse_bucket(v, attrs),
{
}

/// A `handle_responses` span with a conversation id changes no other
/// conversation, and the last conversation only where it is this very one: what
/// has no conversation id keeps the provider and effort that it had.
pub proof fn law_span_changes_its_own_conversation(
    u: UsageView,
    service: Seq<char>,
    attrs: Seq<KeyValue>,
    other: Seq<char>,
    process: Seq<char>,
)
    requires
        sessions_keyed(u),
        crate::otlp::text_attr_or_empty(attrs, "conversation.id"@).len() > 0,
        other != crate::otlp::text_attr_or_empty(attrs, "conversation.id"@),
    ensures
        ({
            let id = crate::otlp::text_attr_or_empty(attrs, "conversation.id"@);
            let v = super::model::effort_seen(u, service, attrs).usage;
            let last = super::model::session_at(u.last_sessions, process);
            &&& super::model::session_at(v.sessions, other) == super::model::session_at(
                u.sessions,
                other,
            )
            &&& !super::model::is_conversation(last, id) ==> super::model::session_at(
                v.last_sessions,
                process,
            ) == last
            &&& !super::model::is_conversation(u.last_session, id) ==> v.last_session
                == u.last_session
        }),
{
    assert(super::model::span_session(u, attrs).conversation_id
        == crate::otlp::text_attr_or_empty(attrs, "conversation.id"@));
}

/// What one Codex process reports of a conversation is not used for the metrics
/// of another, and an effort that it states for the last conversation changes
/// nothing but the effort of its own metrics.
pub proof fn law_services_are_kept_apart(
    u: UsageView,
    service: Seq<char>,
    s: SessionView,
    other: Seq<char>,
    attrs: Seq<KeyValue>,
)
    requires
        other != service,
    ensures
        super::model::codex_point_bucket(
            super::model::session_known(u, service, s),
            other,
            attrs,
        ) == super::model::codex_point_bucket(u, other, attrs),
        super::model::codex_point_bucket(
            super::model::effort_known(u, service, s),
            other,
            attrs,
        ) == super::model::codex_point_bucket(u, other, attrs),
        super::model::codex_point_bucket(
            super::model::last_effort_known(u, service, s),
            other,
            attrs,
        ) == super::model::codex_point_bucket(u, other, attrs),
        super::model::codex_point_bucket(
            super::model::last_effort_known(u, service, s),
            service,
            attrs,
        ) == (BucketId {
            effort: super::stats::known(s.effort),
            ..super::model::codex_point_bucket(u, service, attrs)
        }),
{
}

/// Telemetry of any other service changes nothing.
pub proof fn law_other_services_change_nothing(
    u: UsageView,
    service: Seq<char>,
    log: LogRecord,
    metric: Metric,
    now: int,
)
    requires
        service != crate::agent::claude_code(),
        !super::model::is_codex(service),
    ensures
        super::model::log_taken(u, service, log, now).usage == u,
        super::model::metric_taken(u, service, metric, now).usage == u,
{
    reveal(super::model::log_taken);
    reveal(super::model::metric_taken);
    match metric.data {
        Some(MetricData::Sum(sum)) => {
            lemma_unmeasured_numbers(u, service, sum.data_points@, now);
        },
        Some(MetricData::Histogram(hist)) => {
            lemma_unmeasured_histogram(u, service, hist.data_points@, now);
        },
        _ => {},
    }
}

proof fn lemma_unmeasured_numbers(
    u: UsageView,
    service: Seq<char>,
    points: Seq<NumberDataPoint>,
    now: int,
)
    ensures
        super::model::number_points_taken(u, service, Measure::Nothing, points, now).usage == u,
    decreases points.len(),
{
    reveal(super::model::number_point_taken);
    if points.len() > 0 {
        lemma_unmeasured_numbers(u, service, points.drop_last(), now);
    }
}

proof fn lemma_unmeasured_histogram(
    u: UsageView,
    service: Seq<char>,
    points: Seq<HistogramDataPoint>,
    now: int,
)
    ensures
        super::model::histogram_points_taken(u, service, Measure::Nothing, points, now).usage == u,
    decreases points.len(),
{
    reveal(super::model::histogram_point_taken);
    if points.len() > 0 {
        lemma_unmeasured_histogram(u, service, points.drop_last(), now);
    }
}

} // verus!
