//! What single samples count, and where.

use super::model::{Measure, SessionView, Source, Tally, UsageView};
use super::stats::{BucketId, ModelStats};
use crate::otlp::{
    Event, HistogramDataPoint, KeyValue, LogRecord, Metric, MetricData, NumberDataPoint, Span,
};
use vstd::prelude::*;

verus! {

/// Whether counters grew by the given amounts, as far as they can be counted.
pub open spec fn grew(
    a: ModelStats,
    b: ModelStats,
    requests: int,
    input: int,
    output: int,
    cache_read: int,
    cache_creation: int,
    reasoning: int,
    cost: int,
    duration: int,
) -> bool {
    &&& b.request_count == super::additive::capped(a.request_count + requests)
    &&& b.input_tokens == super::additive::capped(a.input_tokens + input)
    &&& b.output_tokens == super::additive::capped(a.output_tokens + output)
    &&& b.cache_read_tokens == super::additive::capped(a.cache_read_tokens + cache_read)
    &&& b.cache_creation_tokens == super::additive::capped(a.cache_creation_tokens + cache_creation)
    &&& b.reasoning_output_tokens == super::additive::capped(a.reasoning_output_tokens + reasoning)
    &&& b.cost_usd.units == (if a.cost_usd.units + cost <= u128::MAX {
        a.cost_usd.units + cost
    } else {
        u128::MAX as int
    })
    &&& b.duration_ms == super::additive::capped(a.duration_ms + duration)
}

/// The counters of a bucket; zero where there is none.
pub open spec fn held(m: Map<BucketId, ModelStats>, b: BucketId) -> ModelStats {
    if m.dom().contains(b) {
        m[b]
    } else {
        ModelStats {
            request_count: 0,
            input_tokens: 0,
            output_tokens: 0,
            cache_read_tokens: 0,
            cache_creation_tokens: 0,
            reasoning_output_tokens: 0,
            cost_usd: crate::double::Usd { units: 0 },
            duration_ms: 0,
        }
    }
}

/// The text, or `unknown` where it is empty.
pub open spec fn named(s: Seq<char>) -> Seq<char> {
    if s.len() == 0 {
        "unknown"@
    } else {
        s
    }
}

/// The text of an attribute; empty where there is none.
pub open spec fn attr(attrs: Seq<KeyValue>, key: Seq<char>) -> Seq<char> {
    crate::otlp::text_attr_or_empty(attrs, key)
}

/// Counters are added one by one, and stop at their limits.
pub proof fn law_counters_are_added_one_by_one(a: ModelStats, s: ModelStats)
    ensures
        grew(
            a,
            a.plus(s),
            s.request_count as int,
            s.input_tokens as int,
            s.output_tokens as int,
            s.cache_read_tokens as int,
            s.cache_creation_tokens as int,
            s.reasoning_output_tokens as int,
            s.cost_usd.units as int,
            s.duration_ms as int,
        ),
{
}

/// An agent that has reported nothing has no buckets and counters of zero, and an
/// aggregator starts with such agents and knows nothing else.
pub proof fn law_the_start(b: BucketId)
    ensures
        super::model::empty_usage().claude.buckets.dom().is_empty(),
        super::model::empty_usage().codex.buckets.dom().is_empty(),
        super::model::empty_usage().claude.total == held(Map::empty(), b),
        super::model::empty_usage().codex.total == held(Map::empty(), b),
        super::model::empty_usage().last_updated is None,
        super::model::empty_usage().last_session is None,
        super::model::empty_usage().pending.len() == 0,
{
    assert(super::model::empty_usage().claude.buckets.dom() =~= Set::empty());
    assert(super::model::empty_usage().codex.buckets.dom() =~= Set::empty());
}

/// The service name of the Anthropic agent is that of its metrics with a dash in place
/// of the underscore.
pub proof fn law_the_service_of_the_anthropic_agent(i: int)
    requires
        0 <= i < 11,
    ensures
        crate::agent::claude_code().len() == 11,
        i != 6 ==> crate::agent::claude_code()[i] == "claude_code"@[i],
        crate::agent::claude_code()[6] == '-',
{
    reveal_strlit("claude_code");
}

/// A request log of the Anthropic agent counts a request and how long it took, and its
/// tokens and cost, in the total and in the bucket of its model and effort; no other
/// bucket changes.
#[verifier::rlimit(30)]
pub proof fn law_what_a_request_counts(u: UsageView, log: LogRecord, now: int, other: BucketId)
    requires
        crate::otlp::text_value(crate::otlp::inner(log.body)) == Some("claude_code.api_request"@),
        ({
            let model = attr(log.attributes@, "model"@);
            let full = if u.canonical.dom().contains(model) {
                u.canonical[model]
            } else {
                model
            };
            let key = (
                named(crate::text::before(named(full), '[')),
                named(attr(log.attributes@, "effort"@)),
            );
            !u.claude_metrics.dom().contains(key)
        }),
    ensures
        ({
            let attrs = log.attributes@;
            let model = attr(attrs, "model"@);
            let b = BucketId {
                provider: "anthropic"@,
                model: named(
                    if u.canonical.dom().contains(model) {
                        u.canonical[model]
                    } else {
                        model
                    },
                ),
                effort: named(attr(attrs, "effort"@)),
            };
            let t = super::model::log_taken(u, crate::agent::claude_code(), log, now);
            let v = t.usage;
            let count = |key: Seq<char>| crate::otlp::counter_attr(attrs, key) as int;
            &&& t.hits == 1
            &&& v.last_updated == Some(now)
            &&& v.codex == u.codex
            &&& grew(
                u.claude.total,
                v.claude.total,
                1,
                count("input_tokens"@),
                count("output_tokens"@),
                count("cache_read_tokens"@),
                count("cache_creation_tokens"@),
                0,
                crate::otlp::usd_attr(attrs, "cost_usd"@).units as int,
                count("duration_ms"@),
            )
            &&& grew(
                held(u.claude.buckets, b),
                held(v.claude.buckets, b),
                1,
                count("input_tokens"@),
                count("output_tokens"@),
                count("cache_read_tokens"@),
                count("cache_creation_tokens"@),
                0,
                crate::otlp::usd_attr(attrs, "cost_usd"@).units as int,
                count("duration_ms"@),
            )
            &&& other != b ==> held(v.claude.buckets, other) == held(u.claude.buckets, other)
        }),
{
    reveal(super::model::log_taken);
    let attrs = log.attributes@;
    let b = super::model::claude_request_bucket(u, attrs);
    let request = super::model::claude_request_stats(attrs);
    let usage = super::model::claude_usage_stats(attrs);
    reveal_strlit("anthropic");
    reveal_strlit("unknown");
    assert(b.provider == "anthropic"@);
    assert(super::stats::known(super::stats::known(attr(attrs, "effort"@))) == super::stats::known(
        attr(attrs, "effort"@),
    ));
    let first = super::model::claude_recorded(u, b, request, now);
    assert(!super::model::counted_from_metrics(first, super::model::claude_source_key(b)));
    assert(super::model::metrics_cleared(first, b) == first);
}

/// A log record of the Anthropic agent that is no request counts nothing.
pub proof fn law_other_anthropic_logs_count_nothing(u: UsageView, log: LogRecord, now: int)
    requires
        crate::otlp::text_value(crate::otlp::inner(log.body)) != Some("claude_code.api_request"@),
    ensures
        super::model::log_taken(u, crate::agent::claude_code(), log, now) == (Tally {
            usage: u,
            hits: 0,
        }),
{
    reveal(super::model::log_taken);
}

/// The bucket of a data point of a Codex process: its model, and the provider and effort
/// of the last conversation that the process reported; OpenAI where it reported none.
pub open spec fn point_bucket(u: UsageView, service: Seq<char>, attrs: Seq<KeyValue>) -> BucketId {
    BucketId {
        provider: if u.last_sessions.dom().contains(service) {
            named(u.last_sessions[service].provider)
        } else {
            "OpenAI"@
        },
        model: named(attr(attrs, "model"@)),
        effort: if u.last_sessions.dom().contains(service) {
            named(u.last_sessions[service].effort)
        } else {
            "unknown"@
        },
    }
}

proof fn lemma_point_bucket(u: UsageView, service: Seq<char>, attrs: Seq<KeyValue>)
    ensures
        super::model::codex_point_bucket(u, service, attrs) == point_bucket(u, service, attrs),
{
    reveal_strlit("OpenAI");
    assert("OpenAI"@.len() == 6);
}

proof fn lemma_one_histogram_point(
    u: UsageView,
    service: Seq<char>,
    metric: Metric,
    dp: HistogramDataPoint,
    now: int,
)
    requires
        super::additive::one_of_codex(service),
        metric.data matches Some(MetricData::Histogram(h)) && h.aggregation_temporality == 1
            && h.data_points@ == seq![dp],
    ensures
        metric.name@ == "codex.turn.token_usage"@ ==> super::model::metric_taken(
            u,
            service,
            metric,
            now,
        ).usage == super::model::codex_token_point(u, service, dp, now).usage,
        metric.name@ == "codex.turn.e2e_duration_ms"@ ==> super::model::metric_taken(
            u,
            service,
            metric,
            now,
        ).usage == super::model::codex_duration_point(u, service, dp, now).usage,
{
    reveal(super::model::metric_taken);
    reveal(super::model::histogram_point_taken);
    super::additive::lemma_metric_names_differ();
    let measure = super::model::measure_of(service, metric.name@);
    let points = seq![dp];
    assert(points.drop_last() =~= Seq::<HistogramDataPoint>::empty());
    assert(super::model::histogram_points_taken(
        u,
        service,
        measure,
        points.drop_last(),
        now,
    ).usage == u);
    assert(points.last() == dp);
}

/// A data point of a Codex histogram counts in the bucket of its model and of the last
/// conversation of its process, and no other bucket changes: tokens by their type, where
/// the model is not counted from logs, and durations.
#[verifier::rlimit(40)]
pub proof fn law_where_a_histogram_point_counts(
    u: UsageView,
    service: Seq<char>,
    metric: Metric,
    dp: HistogramDataPoint,
    now: int,
    other: BucketId,
)
    requires
        super::additive::one_of_codex(service),
        metric.name@ == "codex.turn.token_usage"@ || metric.name@ == "codex.turn.e2e_duration_ms"@,
        metric.data matches Some(MetricData::Histogram(h)) && h.aggregation_temporality == 1
            && h.data_points@ == seq![dp],
        !(u.codex_sources.dom().contains(named(attr(dp.attributes@, "model"@)))
            && u.codex_sources[named(attr(dp.attributes@, "model"@))] == Source::Logs),
    ensures
        ({
            let v = super::model::metric_taken(u, service, metric, now).usage;
            let b = point_bucket(u, service, dp.attributes@);
            let n = super::model::histogram_counter(dp) as int;
            let kind = attr(dp.attributes@, "token_type"@);
            let tokens = metric.name@ == "codex.turn.token_usage"@;
            let of = |k: Seq<char>|
                if tokens && kind == k {
                    n
                } else {
                    0
                };
            &&& grew(
                held(u.codex.buckets, b),
                held(v.codex.buckets, b),
                0,
                of("input"@),
                of("output"@),
                of("cached_input"@),
                of("cache_write_input"@),
                of("reasoning_output"@),
                0,
                if tokens {
                    0
                } else {
                    n
                },
            )
            &&& other != b ==> held(v.codex.buckets, other) == held(u.codex.buckets, other)
            &&& v.sessions == u.sessions
            &&& v.last_sessions == u.last_sessions
            &&& v.last_session == u.last_session
            &&& v.pending == u.pending
        }),
{
    super::additive::lemma_metric_names_differ();
    super::additive::lemma_token_types_differ();
    lemma_point_bucket(u, service, dp.attributes@);
    lemma_one_histogram_point(u, service, metric, dp, now);
}

/// A data point of the Codex turn count counts requests in the bucket of its model and of
/// the last conversation of its process, and no other bucket changes.
pub proof fn law_where_a_turn_counts(
    u: UsageView,
    service: Seq<char>,
    metric: Metric,
    dp: NumberDataPoint,
    now: int,
    other: BucketId,
)
    requires
        super::additive::one_of_codex(service),
        metric.name@ == "codex.conversation.turn.count"@,
        metric.data matches Some(MetricData::Sum(s)) && s.aggregation_temporality == 1
            && s.data_points@ == seq![dp],
    ensures
        ({
            let v = super::model::metric_taken(u, service, metric, now).usage;
            let b = point_bucket(u, service, dp.attributes@);
            &&& grew(
                held(u.codex.buckets, b),
                held(v.codex.buckets, b),
                super::model::point_counter(dp) as int,
                0,
                0,
                0,
                0,
                0,
                0,
                0,
            )
            &&& other != b ==> held(v.codex.buckets, other) == held(u.codex.buckets, other)
            &&& v.codex_sources == u.codex_sources
        }),
{
    reveal(super::model::metric_taken);
    reveal(super::model::number_point_taken);
    super::additive::lemma_metric_names_differ();
    lemma_point_bucket(u, service, dp.attributes@);
    assert(seq![dp].drop_last() =~= Seq::<NumberDataPoint>::empty());
    assert(super::model::number_points_taken(
        u,
        service,
        Measure::CodexTurns,
        seq![dp].drop_last(),
        now,
    ).usage == u);
    assert(seq![dp].last() == dp);
}

/// A data point of an Anthropic metric counts in the bucket of its model and effort, and
/// no bucket of another model changes.
pub proof fn law_where_an_anthropic_point_counts(
    u: UsageView,
    metric: Metric,
    dp: NumberDataPoint,
    now: int,
    other: BucketId,
)
    requires
        metric.name@ == "claude_code.token.usage"@ || metric.name@ == "claude_code.cost.usage"@,
        metric.data matches Some(MetricData::Sum(s)) && s.aggregation_temporality == 1
            && s.data_points@ == seq![dp] && super::additive::no_logs_for(u, s.data_points@),
        attr(dp.attributes@, "model"@).len() > 0,
        ({
            let model = attr(dp.attributes@, "model"@);
            let bare = crate::text::before(model, '[');
            bare == model || (bare.len() > 0 && u.canonical.dom().contains(bare)
                && u.canonical[bare] == model)
        }),
    ensures
        ({
            let v = super::model::metric_taken(u, crate::agent::claude_code(), metric, now).usage;
            let attrs = dp.attributes@;
            let b = BucketId {
                provider: "anthropic"@,
                model: attr(attrs, "model"@),
                effort: named(attr(attrs, "effort"@)),
            };
            let n = super::model::point_counter(dp) as int;
            let kind = attr(attrs, "type"@);
            let tokens = metric.name@ == "claude_code.token.usage"@;
            let of = |k: Seq<char>|
                if tokens && kind == k {
                    n
                } else {
                    0
                };
            &&& grew(
                held(u.claude.buckets, b),
                held(v.claude.buckets, b),
                0,
                of("input"@),
                of("output"@),
                of("cacheRead"@),
                of("cacheCreation"@),
                0,
                if tokens {
                    0
                } else {
                    super::model::point_usd(dp).units as int
                },
                0,
            )
            &&& other != b ==> held(v.claude.buckets, other) == held(u.claude.buckets, other)
        }),
{
    reveal(super::model::metric_taken);
    reveal(super::model::number_point_taken);
    super::additive::lemma_metric_names_differ();
    super::additive::lemma_token_types_differ();
    reveal_strlit("anthropic");
    reveal_strlit("unknown");
    let measure = super::model::measure_of(crate::agent::claude_code(), metric.name@);
    let points = seq![dp];
    assert(points.drop_last() =~= Seq::<NumberDataPoint>::empty());
    assert(super::model::number_points_taken(
        u,
        crate::agent::claude_code(),
        measure,
        points.drop_last(),
        now,
    ).usage == u);
    assert(points.last() == dp);
    assert(points[0] == dp);
    let attrs = dp.attributes@;
    let model = attr(attrs, "model"@);
    let b = super::model::claude_point_bucket(attrs);
    let seen = super::model::claude_model_seen(u, model);
    assert(seen.claude == u.claude);
    assert(seen.claude_sources == u.claude_sources);
    assert(super::stats::known(super::stats::known(attr(attrs, "effort"@))) == super::stats::known(
        attr(attrs, "effort"@),
    ));
    let key = super::model::claude_source_key(b);
    assert(!(u.claude_sources.dom().contains(key) && u.claude_sources[key] == Source::Logs));
    if !super::model::claude_token_stats(
        attr(attrs, "type"@),
        super::model::point_counter(dp),
    ).is_some() {
        assert(attr(attrs, "type"@) != "input"@);
    }
}

/// What a `codex.conversation_starts` event says of its conversation.
pub open spec fn conversation(attrs: Seq<KeyValue>) -> SessionView {
    SessionView {
        conversation_id: attr(attrs, "conversation.id"@),
        provider: if crate::otlp::text_attr(attrs, "provider_name"@) is Some {
            attr(attrs, "provider_name"@)
        } else {
            "OpenAI"@
        },
        confirmed: true,
        model: attr(attrs, "model"@),
        effort: attr(attrs, "reasoning_effort"@),
    }
}

/// Whether an event says anything of a conversation.
pub open spec fn says_something(attrs: Seq<KeyValue>) -> bool {
    attr(attrs, "conversation.id"@).len() > 0 || attr(attrs, "model"@).len() > 0 || attr(
        attrs,
        "reasoning_effort"@,
    ).len() > 0
}

/// Whether a conversation is remembered as the last of its process and of all, and by its
/// id.
pub open spec fn remembers(v: UsageView, service: Seq<char>, s: SessionView) -> bool {
    &&& v.last_sessions.dom().contains(service) && v.last_sessions[service] == s
    &&& v.last_session == Some(s)
    &&& s.conversation_id.len() > 0 ==> v.sessions.dom().contains(s.conversation_id)
        && v.sessions[s.conversation_id] == s
}

proof fn lemma_remembered(u: UsageView, service: Seq<char>, s: SessionView)
    ensures
        remembers(super::model::session_known(u, service, s), service, s),
{
}

/// A log record of a Codex process that starts a conversation, be it by its body, by an
/// attribute or by its event name, makes that conversation the last one of the process
/// and of all, and is remembered by its id.
pub proof fn law_conversations_are_remembered(
    u: UsageView,
    service: Seq<char>,
    log: LogRecord,
    now: int,
)
    requires
        super::additive::one_of_codex(service),
        crate::otlp::text_value(crate::otlp::inner(log.body)) == Some("codex.conversation_starts"@)
            || crate::otlp::text_attr(log.attributes@, "event.name"@) == Some(
            "codex.conversation_starts"@,
        ) || log.event_name@ == "codex.conversation_starts"@,
        says_something(log.attributes@),
    ensures
        remembers(
            super::model::log_taken(u, service, log, now).usage,
            service,
            conversation(log.attributes@),
        ),
{
    reveal(super::model::log_taken);
    super::additive::lemma_metric_names_differ();
    lemma_remembered(u, service, conversation(log.attributes@));
    assert(super::model::session_of(log.attributes@) == Some(conversation(log.attributes@)));
}

/// So does a span event that starts one, be it by its name or by an attribute.
pub proof fn law_span_events_are_remembered(u: UsageView, service: Seq<char>, ev: Event)
    requires
        ev.name@ == "codex.conversation_starts"@ || crate::otlp::text_attr(
            ev.attributes@,
            "event.name"@,
        ) == Some("codex.conversation_starts"@),
        says_something(ev.attributes@),
    ensures
        remembers(
            super::model::events_taken(u, service, seq![ev]).usage,
            service,
            conversation(ev.attributes@),
        ),
        super::model::events_taken(u, service, seq![ev]).hits == 1,
{
    assert(seq![ev].drop_last() =~= Seq::<Event>::empty());
    let front = super::model::events_taken(u, service, seq![ev].drop_last());
    assert(front.usage == u && front.hits == 0);
    assert(seq![ev].last() == ev);
    assert(super::model::session_of(ev.attributes@) == Some(conversation(ev.attributes@)));
    lemma_remembered(u, service, conversation(ev.attributes@));
}

/// An event of another name says nothing of a conversation.
pub proof fn law_other_events_say_nothing(u: UsageView, service: Seq<char>, ev: Event)
    requires
        ev.name@ != "codex.conversation_starts"@,
        crate::otlp::text_attr(ev.attributes@, "event.name"@) != Some(
            "codex.conversation_starts"@,
        ),
    ensures
        super::model::events_taken(u, service, seq![ev]) == (Tally { usage: u, hits: 0 }),
{
    assert(seq![ev].drop_last() =~= Seq::<Event>::empty());
    let front = super::model::events_taken(u, service, seq![ev].drop_last());
    assert(front == (Tally { usage: u, hits: 0 }));
    assert(seq![ev].last() == ev);
}

/// Whether a log record is a Codex SSE completion that carries tokens, and not merely
/// those of the tool context.
pub open spec fn completes(attrs: Seq<KeyValue>) -> bool {
    let count = |key: Seq<char>| crate::otlp::counter_attr(attrs, key);
    let more = count("output_token_count"@) > 0 || count("cached_token_count"@) > 0 || count(
        "cache_write_token_count"@,
    ) > 0 || count("reasoning_token_count"@) > 0;
    &&& crate::otlp::text_attr(attrs, "event.name"@) == Some("codex.sse_event"@)
    &&& crate::otlp::text_attr(attrs, "event.kind"@) == Some("response.completed"@)
    &&& more || (count("input_token_count"@) > 0 && count("input_token_count"@) != count(
        "tool_token_count"@,
    ))
}

/// The conversation that an SSE completion belongs to: the one of its id, or the last one
/// where it has none.
pub open spec fn own_conversation(u: UsageView, attrs: Seq<KeyValue>) -> Option<SessionView> {
    let id = attr(attrs, "conversation.id"@);
    if id.len() == 0 {
        u.last_session
    } else if u.sessions.dom().contains(id) {
        Some(u.sessions[id])
    } else {
        None
    }
}

/// The bucket of an SSE completion: the provider of its conversation, the model and effort
/// that it names itself, or else those of its conversation.
pub open spec fn completion_bucket(u: UsageView, attrs: Seq<KeyValue>) -> BucketId {
    let session = own_conversation(u, attrs);
    BucketId {
        provider: match session {
            Some(s) => named(s.provider),
            None => "OpenAI"@,
        },
        model: if attr(attrs, "model"@).len() > 0 {
            attr(attrs, "model"@)
        } else if attr(attrs, "slug"@).len() > 0 {
            attr(attrs, "slug"@)
        } else {
            match session {
                Some(s) => named(s.model),
                None => "unknown"@,
            }
        },
        effort: if attr(attrs, "model_reasoning_effort"@).len() > 0 {
            attr(attrs, "model_reasoning_effort"@)
        } else {
            match session {
                Some(s) => named(s.effort),
                None => "unknown"@,
            }
        },
    }
}

/// An SSE completion of a Codex process counts its tokens in the total and in the bucket of
/// its conversation, where the model is not counted from metrics; from now on the model is
/// counted from logs. No other bucket changes.
#[verifier::rlimit(30)]
pub proof fn law_what_a_completion_counts(
    u: UsageView,
    service: Seq<char>,
    log: LogRecord,
    now: int,
    other: BucketId,
)
    requires
        super::additive::one_of_codex(service),
        completes(log.attributes@),
        crate::otlp::text_value(crate::otlp::inner(log.body)) != Some(
            "codex.conversation_starts"@,
        ),
        log.event_name@ != "codex.conversation_starts"@,
        ({
            let model = completion_bucket(u, log.attributes@).model;
            !(u.codex_sources.dom().contains(model) && u.codex_sources[model] == Source::Metrics)
        }),
    ensures
        ({
            let attrs = log.attributes@;
            let t = super::model::log_taken(u, service, log, now);
            let v = t.usage;
            let b = completion_bucket(u, attrs);
            let count = |key: Seq<char>| crate::otlp::counter_attr(attrs, key) as int;
            &&& t.hits == 1
            &&& v.last_updated == Some(now)
            &&& v.claude == u.claude
            &&& v.codex_sources.dom().contains(b.model) && v.codex_sources[b.model]
                == Source::Logs
            &&& grew(
                u.codex.total,
                v.codex.total,
                0,
                count("input_token_count"@),
                count("output_token_count"@),
                count("cached_token_count"@),
                count("cache_write_token_count"@),
                count("reasoning_token_count"@),
                0,
                0,
            )
            &&& grew(
                held(u.codex.buckets, b),
                held(v.codex.buckets, b),
                0,
                count("input_token_count"@),
                count("output_token_count"@),
                count("cached_token_count"@),
                count("cache_write_token_count"@),
                count("reasoning_token_count"@),
                0,
                0,
            )
            &&& other != b ==> held(v.codex.buckets, other) == held(u.codex.buckets, other)
        }),
{
    reveal(super::model::log_taken);
    super::additive::lemma_metric_names_differ();
    let attrs = log.attributes@;
    reveal_strlit("codex.sse_event");
    reveal_strlit("codex.conversation_starts");
    assert("codex.sse_event"@.len() == 15);
    assert("codex.conversation_starts"@.len() == 25);
    assert(!super::model::starts_conversation(log));
    reveal_strlit("OpenAI");
    assert("OpenAI"@.len() == 6);
    let b = completion_bucket(u, attrs);
    assert(super::model::sse_session(u, attrs) == own_conversation(u, attrs));
    assert(super::model::sse_bucket(u, attrs) =~= b);
    let s = super::model::sse_stats(attrs);
    assert(super::model::is_sse_usage(attrs)) by {
        if crate::otlp::counter_attr(attrs, "output_token_count"@) > 0 {
            assert(s.output_tokens > 0);
        } else if crate::otlp::counter_attr(attrs, "cached_token_count"@) > 0 {
            assert(s.cache_read_tokens > 0);
        } else if crate::otlp::counter_attr(attrs, "cache_write_token_count"@) > 0 {
            assert(s.cache_creation_tokens > 0);
        } else if crate::otlp::counter_attr(attrs, "reasoning_token_count"@) > 0 {
            assert(s.reasoning_output_tokens > 0);
        } else {
            assert(s.input_tokens > 0);
        }
    }
}

/// Usage of a conversation that is known by its id stays pending as long as its provider or
/// its effort is not known, and nothing else is pending.
pub proof fn law_what_stays_pending(u: UsageView, attrs: Seq<KeyValue>, now: int)
    requires
        completes(attrs),
    ensures
        ({
            let v = super::model::sse_completed(u, attrs, now).usage;
            let id = attr(attrs, "conversation.id"@);
            let session = own_conversation(u, attrs);
            let b = completion_bucket(u, attrs);
            let known = session is Some && session->0.confirmed && b.effort != "unknown"@;
            &&& id.len() == 0 || known ==> v.pending == u.pending
            &&& forall|i: int|
                0 <= i < u.pending.len() ==> v.pending.len() > i && (#[trigger] v.pending[i]).bucket
                    == u.pending[i].bucket && v.pending[i].conversation_id
                    == u.pending[i].conversation_id
            &&& v.pending.len() <= u.pending.len() + 1
            &&& v.pending.len() > u.pending.len() ==> v.pending.last().bucket == b
                && v.pending.last().conversation_id == id
        }),
{
    reveal_strlit("OpenAI");
    assert("OpenAI"@.len() == 6);
    assert(super::model::sse_session(u, attrs) == own_conversation(u, attrs));
    assert(super::model::sse_bucket(u, attrs) =~= completion_bucket(u, attrs));
    let b = super::model::sse_bucket(u, attrs);
    let id = attr(attrs, "conversation.id"@);
    lemma_pending_position(u, b, id, 0);
}

proof fn lemma_pending_position(u: UsageView, b: BucketId, id: Seq<char>, from: int)
    requires
        0 <= from <= u.pending.len(),
    ensures
        ({
            let i = super::model::pending_position(u.pending, b, id, from);
            &&& from <= i <= u.pending.len()
            &&& i < u.pending.len() ==> u.pending[i].bucket == b && u.pending[i].conversation_id
                == id
        }),
    decreases u.pending.len() - from,
{
    if from < u.pending.len() && !(u.pending[from].bucket == b && u.pending[from].conversation_id
        == id) {
        lemma_pending_position(u, b, id, from + 1);
    }
}

/// A log record of a Codex process that neither starts a conversation nor completes a
/// response counts nothing and changes nothing.
pub proof fn law_other_codex_logs_count_nothing(
    u: UsageView,
    service: Seq<char>,
    log: LogRecord,
    now: int,
)
    requires
        super::additive::one_of_codex(service),
        crate::otlp::text_value(crate::otlp::inner(log.body)) != Some(
            "codex.conversation_starts"@,
        ),
        crate::otlp::text_attr(log.attributes@, "event.name"@) != Some(
            "codex.conversation_starts"@,
        ),
        log.event_name@ != "codex.conversation_starts"@,
        !completes(log.attributes@),
    ensures
        super::model::log_taken(u, service, log, now) == (Tally { usage: u, hits: 0 }),
{
    reveal(super::model::log_taken);
    super::additive::lemma_metric_names_differ();
    let attrs = log.attributes@;
    let s = super::model::sse_stats(attrs);
    assert(!super::model::starts_conversation(log));
    if super::model::is_sse_usage(attrs) {
        if s.output_tokens == 0 && s.cache_read_tokens == 0 && s.cache_creation_tokens == 0
            && s.reasoning_output_tokens == 0 {
            assert(s == ModelStats {
                input_tokens: s.input_tokens,
                ..super::stats::no_stats()
            });
            assert(s.input_tokens > 0);
        }
    }
}

/// A `handle_responses` span with an effort gives that effort to its conversation: the one
/// of its id, which is then known, or the last one of all where it has none. Spans of other
/// names say nothing but by their events.
pub proof fn law_spans_give_efforts(u: UsageView, service: Seq<char>, span: Span)
    requires
        span.events@.len() == 0,
        super::laws::sessions_keyed(u),
    ensures
        ({
            let attrs = span.attributes@;
            let effort = attr(attrs, "codex.request.reasoning_effort"@);
            let id = attr(attrs, "conversation.id"@);
            let t = super::model::span_taken(u, service, span);
            let v = t.usage;
            &&& span.name@ != "handle_responses"@ || effort.len() == 0 ==> t == (Tally {
                usage: u,
                hits: 0,
            })
            &&& span.name@ == "handle_responses"@ && effort.len() > 0 ==> {
                &&& t.hits == 1
                &&& id.len() > 0 ==> v.sessions.dom().contains(id) && v.sessions[id].effort == effort
                &&& id.len() > 0 && u.sessions.dom().contains(id) ==> v.sessions[id] == (
                SessionView { effort, ..u.sessions[id] })
                &&& id.len() > 0 && !u.sessions.dom().contains(id) ==> v.sessions[id] == (
                SessionView {
                    conversation_id: id,
                    provider: "OpenAI"@,
                    confirmed: false,
                    model: attr(attrs, "model"@),
                    effort,
                })
                &&& id.len() == 0 ==> v.last_session is Some && v.last_session->0.effort == effort
                    && v.last_sessions.dom().contains(service) && v.last_sessions[service].effort
                    == effort
                &&& id.len() == 0 && u.last_session is Some ==> v.last_session == Some(
                    SessionView { effort, ..u.last_session->0 },
                )
                &&& id.len() == 0 && u.last_sessions.dom().contains(service)
                    ==> v.last_sessions[service] == (SessionView {
                    effort,
                    ..u.last_sessions[service]
                })
            }
        }),
{
    reveal(super::model::span_taken);
    assert(super::model::events_taken(u, service, span.events@) == (Tally { usage: u, hits: 0 }));
    let id = attr(span.attributes@, "conversation.id"@);
    if id.len() > 0 && u.sessions.dom().contains(id) {
        assert(u.sessions[id].conversation_id == id);
    }
}

/// A model that is counted from metrics becomes one by its first sample, and so does an
/// Anthropic model and effort, which a request log with usage turns to logs for good.
pub proof fn law_the_first_sample_decides(
    u: UsageView,
    service: Seq<char>,
    dp: HistogramDataPoint,
    b: BucketId,
    s: ModelStats,
    now: int,
)
    requires
        s.spec_has_usage(),
    ensures
        ({
            let t = super::model::codex_token_point(u, service, dp, now);
            let model = named(attr(dp.attributes@, "model"@));
            t.hits == 1 ==> t.usage.codex_sources.dom().contains(model)
                && t.usage.codex_sources[model] == Source::Metrics
        }),
        ({
            let t = super::model::claude_metric_usage(u, b, s, now);
            let key = (named(crate::text::before(b.model, '[')), named(b.effort));
            t.hits == 1 ==> t.usage.claude_sources.dom().contains(key)
                && t.usage.claude_sources[key] == Source::Metrics
        }),
        ({
            let v = super::model::claude_log_usage(u, b, s, now);
            let key = (named(crate::text::before(b.model, '[')), named(b.effort));
            v.claude_sources.dom().contains(key) && v.claude_sources[key] == Source::Logs
        }),
{
}

/// What data points stand for: an integer counts if it is positive, a double by its whole
/// part, and one without a value nothing; money in the same way.
pub proof fn law_what_points_stand_for(dp: NumberDataPoint, h: HistogramDataPoint)
    ensures
        dp.value is None ==> super::model::point_counter(dp) == 0 && super::model::point_usd(
            dp,
        ).units == 0,
        dp.value matches Some(crate::otlp::NumberValue::AsInt(i)) ==> i <= 0
            ==> super::model::point_counter(dp) == 0 && super::model::point_usd(dp).units == 0,
        dp.value matches Some(crate::otlp::NumberValue::AsInt(i)) ==> i > 0
            ==> super::model::point_counter(dp) == i && super::model::point_usd(dp).units == i
            * 0x1_0000_0000_0000_0000,
        dp.value matches Some(crate::otlp::NumberValue::AsDouble(d)) ==> super::model::point_counter(
            dp,
        ) == crate::double::counter_of(d.bits) && super::model::point_usd(dp)
            == crate::double::usd_of(d.bits),
        h.sum is None ==> super::model::histogram_counter(h) == 0,
        h.sum matches Some(d) ==> super::model::histogram_counter(h) == crate::double::counter_of(
            d.bits,
        ),
{
    if let Some(crate::otlp::NumberValue::AsInt(i)) = dp.value {
        if i > 0 {
            assert(i * 0x1_0000_0000_0000_0000 <= u128::MAX) by (nonlinear_arith)
                requires
                    0 < i <= 0x7fff_ffff_ffff_ffff,
            ;
        }
    }
}

/// Each bucket of an agent that was heard of is published under its key, with its name and
/// its counters, and nothing else is published.
pub proof fn law_what_is_published(m: Map<BucketId, ModelStats>, b: BucketId, key: Seq<char>)
    ensures
        m.dom().contains(b) ==> super::published(m).dom().contains(super::stats::bucket_key(b))
            && super::published(m)[super::stats::bucket_key(b)] == (b, m[b]),
        super::published(m).dom().contains(key) ==> exists|c: BucketId| #[trigger]
            m.dom().contains(c) && super::stats::bucket_key(c) == key,
{
    if m.dom().contains(b) {
        let k = super::stats::bucket_key(b);
        assert(super::published(m).dom().contains(k));
        let c = choose|c: BucketId| m.dom().contains(c) && super::stats::bucket_key(c) == k;
        super::stats::law_bucket_keys_are_distinct(b, c);
    }
}

/// An agent is published if and only if it was heard of: the Anthropic one under its
/// service name and Codex as `codex`, each with its own total and buckets.
pub proof fn law_who_is_published(u: UsageView, name: Seq<char>)
    ensures
        ({
            let all = super::published_agents(u);
            let heard = |m: Map<BucketId, ModelStats>|
                exists|b: BucketId| #[trigger] m.dom().contains(b);
            &&& all.dom().contains(crate::agent::claude_code()) <==> heard(u.claude.buckets)
            &&& all.dom().contains("codex"@) <==> heard(u.codex.buckets)
            &&& all.dom().contains(name) ==> name == crate::agent::claude_code() || name
                == "codex"@
            &&& heard(u.claude.buckets) ==> all[crate::agent::claude_code()].total == u.claude.total
                && all[crate::agent::claude_code()].buckets == super::published(u.claude.buckets)
            &&& heard(u.codex.buckets) ==> all["codex"@].total == u.codex.total
                && all["codex"@].buckets == super::published(u.codex.buckets)
        }),
{
    crate::agent::lemma_claude_code();
    reveal_strlit("codex");
    assert("codex"@.len() == 5);
    assert(u.claude.buckets =~= Map::empty() <==> !exists|b: BucketId| #[trigger]
        u.claude.buckets.dom().contains(b));
    assert(u.codex.buckets =~= Map::empty() <==> !exists|b: BucketId| #[trigger]
        u.codex.buckets.dom().contains(b));
}

/// Once provider and effort of a conversation are known, nothing of it stays pending for
/// its model, and what is pending for other conversations or models stays.
pub proof fn law_what_a_conversation_settles(
    u: UsageView,
    service: Seq<char>,
    s: SessionView,
    i: int,
)
    requires
        s.conversation_id.len() > 0,
        s.model.len() > 0,
        s.confirmed,
        s.effort.len() > 0,
        s.effort != "unknown"@,
        0 <= i < super::model::session_known(u, service, s).pending.len(),
    ensures
        ({
            let v = super::model::session_known(u, service, s);
            !(v.pending[i].conversation_id == s.conversation_id && v.pending[i].bucket.model
                == s.model)
        }),
{
    let v = super::model::session_known(u, service, s);
    super::conservation::law_late_conversation_takes_its_usage(
        u,
        service,
        s,
        v.pending[i].bucket,
    );
    assert(!super::model::concerns(v.pending[i], s));
}

/// A conversation without an id gives its effort to the usage of its provider and model
/// whose effort is not known and that is not pending: it moves to the bucket of that
/// effort, and no other bucket changes.
pub proof fn law_usage_without_a_conversation_takes_the_last_effort(
    u: UsageView,
    service: Seq<char>,
    s: SessionView,
    other: BucketId,
)
    requires
        s.conversation_id.len() == 0,
        s.model.len() > 0,
        s.effort.len() > 0,
        s.effort != "unknown"@,
    ensures
        ({
            let v = super::model::session_known(u, service, s);
            let from = BucketId {
                provider: named(s.provider),
                model: s.model,
                effort: "unknown"@,
            };
            let to = BucketId { provider: named(s.provider), model: s.model, effort: s.effort };
            let free = held(u.codex.buckets, from).minus(
                super::model::pending_total(u.pending, from),
            );
            &&& v.codex.total == u.codex.total
            &&& v.pending == u.pending
            &&& held(v.codex.buckets, to) == held(u.codex.buckets, to).plus(free)
            &&& held(v.codex.buckets, from) == held(u.codex.buckets, from).minus(free)
            &&& other != from && other != to ==> held(v.codex.buckets, other) == held(
                u.codex.buckets,
                other,
            )
        }),
{
    reveal_strlit("unknown");
    assert("unknown"@.len() == 7);
    let from = BucketId { provider: named(s.provider), model: s.model, effort: "unknown"@ };
    let to = BucketId { provider: named(s.provider), model: s.model, effort: s.effort };
    assert(from == super::stats::bucket_of(s.provider, s.model, "unknown"@));
    assert(to == super::stats::bucket_of(s.provider, s.model, s.effort));
    let a = u.codex;
    let free = held(a.buckets, from).minus(super::model::pending_total(u.pending, from));
    let x = held(a.buckets, to);
    assert(x.plus(held(Map::empty(), to)) == x);
    let y = held(a.buckets, from);
    assert(y.minus(held(Map::empty(), to)) == y);
    super::laws::law_moving_conserves(a, from, to, free);
    if !a.buckets.dom().contains(from) {
        assert(y.minus(super::model::pending_total(u.pending, from)) == held(Map::empty(), to));
    }
}

/// A request log with usage takes back what metrics had counted for its model and effort,
/// once: nothing of it is left to be taken back again.
pub proof fn law_metrics_are_taken_back_once(u: UsageView, b: BucketId, s: ModelStats, now: int)
    requires
        s.spec_has_usage(),
    ensures
        ({
            let key = (named(crate::text::before(b.model, '[')), named(b.effort));
            let v = super::model::claude_log_usage(u, b, s, now);
            let counted = u.claude_sources.dom().contains(key) && u.claude_sources[key]
                == Source::Metrics && u.claude_metrics.dom().contains(key);
            &&& counted ==> !v.claude_metrics.dom().contains(key)
            &&& counted ==> v.claude.total == u.claude.total.minus(u.claude_metrics[key]).plus(s)
            &&& !counted ==> v.claude.total == u.claude.total.plus(s)
            &&& !counted ==> v.claude_metrics == u.claude_metrics
            &&& super::model::claude_log_usage(v, b, s, now).claude.total == v.claude.total.plus(s)
        }),
{
}

/// A sample without usage is not counted as usage, neither from a log nor from a metric.
pub proof fn law_no_usage_is_no_sample(u: UsageView, b: BucketId, s: ModelStats, now: int)
    requires
        !s.spec_has_usage(),
    ensures
        super::model::claude_log_usage(u, b, s, now) == u,
        super::model::claude_metric_usage(u, b, s, now) == (Tally { usage: u, hits: 0 }),
{
}

/// What is pending for a bucket and conversation; nothing where there is none.
pub open spec fn pending_for(u: UsageView, b: BucketId, id: Seq<char>, from: int) -> ModelStats
    decreases u.pending.len() - from,
{
    if from >= u.pending.len() {
        held(Map::empty(), b)
    } else if u.pending[from].bucket == b && u.pending[from].conversation_id == id {
        u.pending[from].stats
    } else {
        pending_for(u, b, id, from + 1)
    }
}

proof fn lemma_pending_for(u: UsageView, b: BucketId, id: Seq<char>, from: int)
    requires
        0 <= from <= u.pending.len(),
    ensures
        ({
            let i = super::model::pending_position(u.pending, b, id, from);
            &&& from <= i <= u.pending.len()
            &&& i < u.pending.len() ==> pending_for(u, b, id, from) == u.pending[i].stats
            &&& i == u.pending.len() ==> pending_for(u, b, id, from) == held(Map::empty(), b)
        }),
    decreases u.pending.len() - from,
{
    if from < u.pending.len() && !(u.pending[from].bucket == b && u.pending[from].conversation_id
        == id) {
        lemma_pending_for(u, b, id, from + 1);
    }
}

proof fn lemma_pending_after(
    u: UsageView,
    v: UsageView,
    b: BucketId,
    id: Seq<char>,
    s: ModelStats,
    from: int,
)
    requires
        0 <= from <= super::model::pending_position(u.pending, b, id, 0),
        v.pending == super::model::pending_plus(u.pending, b, id, s),
        super::model::pending_position(u.pending, b, id, 0) <= u.pending.len(),
        super::model::pending_position(u.pending, b, id, 0) < u.pending.len()
            ==> u.pending[super::model::pending_position(u.pending, b, id, 0)].bucket == b
            && u.pending[super::model::pending_position(u.pending, b, id, 0)].conversation_id == id,
        forall|j: int|
            0 <= j < super::model::pending_position(u.pending, b, id, 0) ==> !((
            #[trigger] u.pending[j]).bucket == b && u.pending[j].conversation_id == id),
    ensures
        ({
            let i = super::model::pending_position(u.pending, b, id, 0);
            pending_for(v, b, id, from) == (if i < u.pending.len() {
                u.pending[i].stats.plus(s)
            } else {
                s
            })
        }),
    decreases super::model::pending_position(u.pending, b, id, 0) - from,
{
    let i = super::model::pending_position(u.pending, b, id, 0);
    if from < i {
        assert(v.pending[from] == u.pending[from]);
        lemma_pending_after(u, v, b, id, s, from + 1);
    }
}

proof fn lemma_not_before(u: UsageView, b: BucketId, id: Seq<char>, from: int, j: int)
    requires
        0 <= from <= j < super::model::pending_position(u.pending, b, id, from),
    ensures
        !(u.pending[j].bucket == b && u.pending[j].conversation_id == id),
    decreases j - from,
{
    if from < u.pending.len() && !(u.pending[from].bucket == b && u.pending[from].conversation_id
        == id) && from < j {
        lemma_not_before(u, b, id, from + 1, j);
    }
}

/// Usage that stays pending is added to what is pending for the same bucket and
/// conversation.
pub proof fn law_pending_usage_adds_up(u: UsageView, attrs: Seq<KeyValue>, now: int)
    requires
        completes(attrs),
        attr(attrs, "conversation.id"@).len() > 0,
        own_conversation(u, attrs) is None || !own_conversation(u, attrs)->0.confirmed
            || completion_bucket(u, attrs).effort == "unknown"@,
        ({
            let model = completion_bucket(u, attrs).model;
            !(u.codex_sources.dom().contains(model) && u.codex_sources[model] == Source::Metrics)
        }),
    ensures
        ({
            let v = super::model::sse_completed(u, attrs, now).usage;
            let b = completion_bucket(u, attrs);
            let id = attr(attrs, "conversation.id"@);
            let count = |key: Seq<char>| crate::otlp::counter_attr(attrs, key) as int;
            grew(
                pending_for(u, b, id, 0),
                pending_for(v, b, id, 0),
                0,
                count("input_token_count"@),
                count("output_token_count"@),
                count("cached_token_count"@),
                count("cache_write_token_count"@),
                count("reasoning_token_count"@),
                0,
                0,
            )
        }),
{
    reveal_strlit("OpenAI");
    assert("OpenAI"@.len() == 6);
    assert(super::model::sse_session(u, attrs) == own_conversation(u, attrs));
    assert(super::model::sse_bucket(u, attrs) =~= completion_bucket(u, attrs));
    let b = super::model::sse_bucket(u, attrs);
    let id = attr(attrs, "conversation.id"@);
    let s = super::model::sse_stats(attrs);
    let v = super::model::sse_completed(u, attrs, now).usage;
    assert(super::model::is_sse_usage(attrs)) by {
        if crate::otlp::counter_attr(attrs, "output_token_count"@) > 0 {
            assert(s.output_tokens > 0);
        } else if crate::otlp::counter_attr(attrs, "cached_token_count"@) > 0 {
            assert(s.cache_read_tokens > 0);
        } else if crate::otlp::counter_attr(attrs, "cache_write_token_count"@) > 0 {
            assert(s.cache_creation_tokens > 0);
        } else if crate::otlp::counter_attr(attrs, "reasoning_token_count"@) > 0 {
            assert(s.reasoning_output_tokens > 0);
        } else {
            assert(s.input_tokens > 0);
        }
    }
    lemma_pending_position(u, b, id, 0);
    lemma_pending_for(u, b, id, 0);
    assert forall|j: int|
        0 <= j < super::model::pending_position(u.pending, b, id, 0) implies !((
    #[trigger] u.pending[j]).bucket == b && u.pending[j].conversation_id == id) by {
        lemma_not_before(u, b, id, 0, j);
    }
    assert(v.pending == super::model::pending_plus(u.pending, b, id, s));
    lemma_pending_after(u, v, b, id, s, 0);
}

/// A model name without a bracket changes no bucket and no name that requests take.
pub proof fn law_plain_names_change_nothing(u: UsageView, model: Seq<char>, other: Seq<char>)
    requires
        crate::text::before(model, '[') == model,
    ensures
        ({
            let v = super::model::claude_model_seen(u, model);
            &&& v.claude == u.claude
            &&& v.codex == u.codex
            &&& super::model::canonical_model(v, other) == super::model::canonical_model(u, other)
        }),
{
}

/// A `handle_responses` span that names the last conversation changes that one too: of its
/// process, and of all. One without an id makes a conversation of its own where there was
/// none.
pub proof fn law_spans_of_the_last_conversation(u: UsageView, service: Seq<char>, span: Span)
    requires
        span.events@.len() == 0,
        span.name@ == "handle_responses"@,
        attr(span.attributes@, "codex.request.reasoning_effort"@).len() > 0,
        super::laws::sessions_keyed(u),
    ensures
        ({
            let id = attr(span.attributes@, "conversation.id"@);
            let v = super::model::span_taken(u, service, span).usage;
            &&& id.len() > 0 && u.last_session is Some && u.last_session->0.conversation_id == id
                ==> v.last_session == Some(v.sessions[id])
            &&& id.len() > 0 && u.last_sessions.dom().contains(service)
                && u.last_sessions[service].conversation_id == id ==> v.last_sessions[service]
                == v.sessions[id]
            &&& id.len() == 0 && u.last_session is None ==> v.last_session == Some(
                SessionView {
                    conversation_id: Seq::empty(),
                    provider: "OpenAI"@,
                    confirmed: false,
                    model: Seq::empty(),
                    effort: attr(span.attributes@, "codex.request.reasoning_effort"@),
                },
            )
        }),
{
    reveal(super::model::span_taken);
    assert(super::model::events_taken(u, service, span.events@) == (Tally { usage: u, hits: 0 }));
    let id = attr(span.attributes@, "conversation.id"@);
    if id.len() > 0 && u.sessions.dom().contains(id) {
        assert(u.sessions[id].conversation_id == id);
    }
}

/// Samples are counted as far as that can be.
pub proof fn law_samples_are_counted(n: nat)
    ensures
        n <= usize::MAX ==> super::model::capped_count(n) == n,
        n > usize::MAX ==> super::model::capped_count(n) == usize::MAX,
{
}

} // verus!
