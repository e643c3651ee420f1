//! What aggregation does to the totals, stated over maps and sequences.

use super::stats::{BucketId, ModelStats};
use crate::otlp::{
    Event, HistogramDataPoint, KeyValue, LogRecord, Metric, MetricData, NumberDataPoint, NumberValue,
    ResourceLogs, ResourceMetrics, ResourceSpans, ScopeLogs, ScopeMetrics, ScopeSpans, Span,
};
use vstd::prelude::*;

verus! {

/// Which kind of telemetry counts for a model.
#[derive(Clone, Copy, Debug, PartialEq, Eq, Structural)]
pub enum Source {
    Logs,
    Metrics,
}

impl View for Source {
    type V = Source;

    open spec fn view(&self) -> Source {
        *self
    }
}

/// The totals of one agent.
#[verifier::ext_equal]
pub struct AgentView {
    pub total: ModelStats,
    pub buckets: Map<BucketId, ModelStats>,
}

/// What is known of a Codex conversation.
#[verifier::ext_equal]
pub struct SessionView {
    pub conversation_id: Seq<char>,
    pub provider: Seq<char>,
    /// Whether the conversation itself named its provider.
    pub confirmed: bool,
    pub model: Seq<char>,
    pub effort: Seq<char>,
}

/// Usage of a Codex conversation that was counted before all of its bucket was
/// known.
#[verifier::ext_equal]
pub struct PendingView {
    pub bucket: BucketId,
    pub conversation_id: Seq<char>,
    pub stats: ModelStats,
}

/// All that the aggregator remembers.
#[verifier::ext_equal]
pub struct UsageView {
    pub last_updated: Option<int>,
    pub claude: AgentView,
    pub codex: AgentView,
    /// From an Anthropic model's bare name to the full name last seen on a metric.
    pub canonical: Map<Seq<char>, Seq<char>>,
    /// What counts for an Anthropic model and effort.
    pub claude_sources: Map<(Seq<char>, Seq<char>), Source>,
    /// Anthropic usage that was counted from metrics.
    pub claude_metrics: Map<(Seq<char>, Seq<char>), ModelStats>,
    /// The last conversation that each service reported.
    pub last_sessions: Map<Seq<char>, SessionView>,
    /// The last conversation that any service reported.
    pub last_session: Option<SessionView>,
    /// Conversations by their id.
    pub sessions: Map<Seq<char>, SessionView>,
    /// What counts for a Codex model.
    pub codex_sources: Map<Seq<char>, Source>,
    pub pending: Seq<PendingView>,
}

/// The state after a step, and how many samples it took in.
pub struct Tally {
    pub usage: UsageView,
    pub hits: nat,
}

/// The totals of an agent that has reported nothing.
pub open spec fn empty_agent() -> AgentView {
    AgentView { total: super::stats::no_stats(), buckets: Map::empty() }
}

/// The state that an aggregator starts in.
pub open spec fn empty_usage() -> UsageView {
    UsageView {
        last_updated: None,
        claude: empty_agent(),
        codex: empty_agent(),
        canonical: Map::empty(),
        claude_sources: Map::empty(),
        claude_metrics: Map::empty(),
        last_sessions: Map::empty(),
        last_session: None,
        sessions: Map::empty(),
        codex_sources: Map::empty(),
        pending: Seq::empty(),
    }
}

/// The counters of a bucket; zero where there is none yet.
pub open spec fn stats_at<K>(m: Map<K, ModelStats>, k: K) -> ModelStats {
    if m.dom().contains(k) {
        m[k]
    } else {
        super::stats::no_stats()
    }
}

/// An agent's totals after a sample.
pub open spec fn recorded(a: AgentView, b: BucketId, s: ModelStats) -> AgentView {
    AgentView {
        total: a.total.plus(s),
        buckets: a.buckets.insert(b, stats_at(a.buckets, b).plus(s)),
    }
}

/// An agent's totals after a sample was taken back.
pub open spec fn withdrawn(a: AgentView, b: BucketId, s: ModelStats) -> AgentView {
    AgentView {
        total: a.total.minus(s),
        buckets: if a.buckets.dom().contains(b) {
            a.buckets.insert(b, a.buckets[b].minus(s))
        } else {
            a.buckets
        },
    }
}

/// An agent's totals after counters moved from one bucket to another. A bucket
/// that holds nothing any more is dropped.
pub open spec fn moved(a: AgentView, from: BucketId, to: BucketId, s: ModelStats) -> AgentView {
    let rest = if !a.buckets.dom().contains(from) {
        a.buckets
    } else if a.buckets[from].minus(s) == super::stats::no_stats() {
        a.buckets.remove(from)
    } else {
        a.buckets.insert(from, a.buckets[from].minus(s))
    };
    AgentView { total: a.total, buckets: rest.insert(to, stats_at(rest, to).plus(s)) }
}

/// An Anthropic sample at time `now`.
pub open spec fn claude_recorded(u: UsageView, b: BucketId, s: ModelStats, now: int) -> UsageView {
    UsageView { last_updated: Some(now), claude: recorded(u.claude, b, s), ..u }
}

/// A Codex sample at time `now`.
pub open spec fn codex_recorded(u: UsageView, b: BucketId, s: ModelStats, now: int) -> UsageView {
    UsageView { last_updated: Some(now), codex: recorded(u.codex, b, s), ..u }
}

// ---------------------------------------------------------------------------
// The Anthropic agent
// ---------------------------------------------------------------------------

/// What decides between logs and metrics: the bare model name and the effort.
pub open spec fn claude_source_key(b: BucketId) -> (Seq<char>, Seq<char>) {
    (super::stats::known(crate::text::before(b.model, '[')), super::stats::known(b.effort))
}

/// Whether metrics count for a model and effort.
pub open spec fn counted_from_metrics(u: UsageView, key: (Seq<char>, Seq<char>)) -> bool {
    u.claude_sources.dom().contains(key) && u.claude_sources[key] == Source::Metrics
        && u.claude_metrics.dom().contains(key)
}

/// The state after what metrics had counted for the model and effort of a bucket
/// was taken back from it.
pub open spec fn metrics_cleared(u: UsageView, b: BucketId) -> UsageView {
    let key = claude_source_key(b);
    if counted_from_metrics(u, key) {
        UsageView {
            claude: withdrawn(u.claude, b, u.claude_metrics[key]),
            claude_metrics: u.claude_metrics.remove(key),
            ..u
        }
    } else {
        u
    }
}

/// Usage out of a request log. It replaces what metrics had counted for the
/// same model and effort.
pub open spec fn claude_log_usage(u: UsageView, b: BucketId, s: ModelStats, now: int) -> UsageView {
    if !s.spec_has_usage() {
        u
    } else {
        let counted = claude_recorded(metrics_cleared(u, b), b, s, now);
        UsageView {
            claude_sources: counted.claude_sources.insert(claude_source_key(b), Source::Logs),
            ..counted
        }
    }
}

/// Usage out of a metric. It counts only as long as no request log was seen
/// for the same model and effort.
pub open spec fn claude_metric_usage(u: UsageView, b: BucketId, s: ModelStats, now: int) -> Tally {
    let key = claude_source_key(b);
    if !s.spec_has_usage() || (u.claude_sources.dom().contains(key) && u.claude_sources[key]
        == Source::Logs) {
        Tally { usage: u, hits: 0 }
    } else {
        let counted = claude_recorded(u, b, s, now);
        Tally {
            usage: UsageView {
                claude_sources: counted.claude_sources.insert(key, Source::Metrics),
                claude_metrics: counted.claude_metrics.insert(
                    key,
                    stats_at(counted.claude_metrics, key).plus(s),
                ),
                ..counted
            },
            hits: 1,
        }
    }
}

/// Buckets after those of a bare model name were folded into those of the full
/// name.
pub open spec fn folded(m: Map<BucketId, ModelStats>, bare: Seq<char>, full: Seq<char>) -> Map<
    BucketId,
    ModelStats,
> {
    Map::new(
        |k: BucketId|
            (m.dom().contains(k) && k.model != bare) || (k.model == full && m.dom().contains(
                BucketId { model: bare, ..k },
            )),
        |k: BucketId|
            if k.model == full && m.dom().contains(BucketId { model: bare, ..k }) {
                stats_at(m, k).plus(m[BucketId { model: bare, ..k }])
            } else {
                m[k]
            },
    )
}

/// The state after a full model name was seen on a metric.
pub open spec fn claude_model_seen(u: UsageView, full: Seq<char>) -> UsageView {
    let bare = crate::text::before(full, '[');
    if full.len() == 0 {
        u
    } else if bare.len() == 0 || bare == full {
        if u.canonical.dom().contains(full) {
            u
        } else {
            UsageView { canonical: u.canonical.insert(full, full), ..u }
        }
    } else if u.canonical.dom().contains(bare) && u.canonical[bare] == full {
        u
    } else {
        UsageView {
            canonical: u.canonical.insert(bare, full),
            claude: AgentView { buckets: folded(u.claude.buckets, bare, full), ..u.claude },
            ..u
        }
    }
}

/// The full name of an Anthropic model, as far as it is known.
pub open spec fn canonical_model(u: UsageView, raw: Seq<char>) -> Seq<char> {
    if u.canonical.dom().contains(raw) {
        u.canonical[raw]
    } else {
        raw
    }
}

/// Whether a log record reports an Anthropic API request.
pub open spec fn is_claude_request(log: LogRecord) -> bool {
    crate::otlp::text_value(crate::otlp::inner(log.body)) == Some("claude_code.api_request"@)
}

/// The bucket of an Anthropic API request.
pub open spec fn claude_request_bucket(u: UsageView, attrs: Seq<KeyValue>) -> BucketId {
    super::stats::bucket_of(
        "anthropic"@,
        canonical_model(u, crate::otlp::text_attr_or_empty(attrs, "model"@)),
        crate::otlp::text_attr_or_empty(attrs, "effort"@),
    )
}

/// The request itself and how long it took.
pub open spec fn claude_request_stats(attrs: Seq<KeyValue>) -> ModelStats {
    ModelStats {
        request_count: 1,
        duration_ms: crate::otlp::counter_attr(attrs, "duration_ms"@),
        ..super::stats::no_stats()
    }
}

/// The tokens and the cost of a request.
pub open spec fn claude_usage_stats(attrs: Seq<KeyValue>) -> ModelStats {
    ModelStats {
        input_tokens: crate::otlp::counter_attr(attrs, "input_tokens"@),
        output_tokens: crate::otlp::counter_attr(attrs, "output_tokens"@),
        cache_read_tokens: crate::otlp::counter_attr(attrs, "cache_read_tokens"@),
        cache_creation_tokens: crate::otlp::counter_attr(attrs, "cache_creation_tokens"@),
        cost_usd: crate::otlp::usd_attr(attrs, "cost_usd"@),
        ..super::stats::no_stats()
    }
}

/// The state after an Anthropic log record.
pub open spec fn claude_log(u: UsageView, log: LogRecord, now: int) -> Tally {
    if is_claude_request(log) {
        let attrs = log.attributes@;
        let b = claude_request_bucket(u, attrs);
        Tally {
            usage: claude_log_usage(
                claude_recorded(u, b, claude_request_stats(attrs), now),
                b,
                claude_usage_stats(attrs),
                now,
            ),
            hits: 1,
        }
    } else {
        Tally { usage: u, hits: 0 }
    }
}

/// What a data point adds to a counter.
pub open spec fn point_counter(dp: NumberDataPoint) -> u64 {
    match dp.value {
        Some(NumberValue::AsInt(i)) => if i > 0 {
            i as u64
        } else {
            0
        },
        Some(NumberValue::AsDouble(d)) => crate::double::counter_of(d.bits) as u64,
        None => 0,
    }
}

/// What a data point adds to a cost.
pub open spec fn point_usd(dp: NumberDataPoint) -> crate::double::Usd {
    match dp.value {
        Some(NumberValue::AsInt(i)) => crate::otlp::dollars_of(i),
        Some(NumberValue::AsDouble(d)) => crate::double::usd_of(d.bits),
        None => crate::double::Usd { units: 0 },
    }
}

/// What the sum of a histogram data point adds to a counter.
pub open spec fn histogram_counter(dp: HistogramDataPoint) -> u64 {
    match dp.sum {
        Some(d) => crate::double::counter_of(d.bits) as u64,
        None => 0,
    }
}

/// The counters for a number of Anthropic tokens of a type, where the type is
/// known.
pub open spec fn claude_token_stats(kind: Seq<char>, n: u64) -> Option<ModelStats> {
    let z = super::stats::no_stats();
    if kind == "input"@ {
        Some(ModelStats { input_tokens: n, ..z })
    } else if kind == "output"@ {
        Some(ModelStats { output_tokens: n, ..z })
    } else if kind == "cacheRead"@ {
        Some(ModelStats { cache_read_tokens: n, ..z })
    } else if kind == "cacheCreation"@ {
        Some(ModelStats { cache_creation_tokens: n, ..z })
    } else {
        None
    }
}

/// The bucket of an Anthropic data point.
pub open spec fn claude_point_bucket(attrs: Seq<KeyValue>) -> BucketId {
    super::stats::bucket_of(
        "anthropic"@,
        crate::otlp::text_attr_or_empty(attrs, "model"@),
        crate::otlp::text_attr_or_empty(attrs, "effort"@),
    )
}

/// The state after a data point of `claude_code.token.usage`.
pub open spec fn claude_token_point(u: UsageView, dp: NumberDataPoint, now: int) -> Tally {
    let attrs = dp.attributes@;
    let seen = claude_model_seen(u, crate::otlp::text_attr_or_empty(attrs, "model"@));
    match claude_token_stats(crate::otlp::text_attr_or_empty(attrs, "type"@), point_counter(dp)) {
        Some(s) => claude_metric_usage(seen, claude_point_bucket(attrs), s, now),
        None => Tally { usage: seen, hits: 0 },
    }
}

/// The state after a data point of `claude_code.cost.usage`.
pub open spec fn claude_cost_point(u: UsageView, dp: NumberDataPoint, now: int) -> Tally {
    let attrs = dp.attributes@;
    let seen = claude_model_seen(u, crate::otlp::text_attr_or_empty(attrs, "model"@));
    let s = ModelStats { cost_usd: point_usd(dp), ..super::stats::no_stats() };
    claude_metric_usage(seen, claude_point_bucket(attrs), s, now)
}

// ---------------------------------------------------------------------------
// Codex
// ---------------------------------------------------------------------------

/// Whether a service is one of the Codex processes.
pub open spec fn is_codex(service: Seq<char>) -> bool {
    service == "codex_cli_rs"@ || service == "codex_exec"@ || service == "codex-app-server"@
        || service == "codex_mcp_server"@
}

/// What the attributes of a `codex.conversation_starts` event say of the
/// conversation, if anything.
pub open spec fn session_of(attrs: Seq<KeyValue>) -> Option<SessionView> {
    let s = SessionView {
        conversation_id: crate::otlp::text_attr_or_empty(attrs, "conversation.id"@),
        provider: match crate::otlp::text_attr(attrs, "provider_name"@) {
            Some(p) => p,
            None => "OpenAI"@,
        },
        confirmed: true,
        model: crate::otlp::text_attr_or_empty(attrs, "model"@),
        effort: crate::otlp::text_attr_or_empty(attrs, "reasoning_effort"@),
    };
    if s.conversation_id.len() == 0 && s.model.len() == 0 && s.effort.len() == 0 {
        None
    } else {
        Some(s)
    }
}

/// Whether a log record is a `codex.conversation_starts` event: by its body, an
/// attribute, or its event name.
pub open spec fn starts_conversation(log: LogRecord) -> bool {
    crate::otlp::text_value(crate::otlp::inner(log.body)) == Some("codex.conversation_starts"@)
        || crate::otlp::text_attr(log.attributes@, "event.name"@) == Some(
        "codex.conversation_starts"@,
    ) || log.event_name@ == "codex.conversation_starts"@
}

/// Whether a span event is a `codex.conversation_starts` event: by its name or
/// an attribute.
pub open spec fn event_starts_conversation(ev: Event) -> bool {
    ev.name@ == "codex.conversation_starts"@ || crate::otlp::text_attr(
        ev.attributes@,
        "event.name"@,
    ) == Some("codex.conversation_starts"@)
}

/// The bucket of pending usage once a conversation is known better: a provider
/// that the conversation named, and its effort where none was known.
pub open spec fn settled_bucket(b: BucketId, s: SessionView) -> BucketId {
    BucketId {
        provider: if s.confirmed {
            super::stats::known(s.provider)
        } else {
            b.provider
        },
        model: b.model,
        effort: if b.effort == "unknown"@ {
            super::stats::known(s.effort)
        } else {
            b.effort
        },
    }
}

/// The position of the pending usage of a bucket and conversation.
pub open spec fn pending_position(
    pending: Seq<PendingView>,
    b: BucketId,
    conversation_id: Seq<char>,
    from: int,
) -> int
    decreases pending.len() - from,
{
    if from >= pending.len() {
        pending.len() as int
    } else if pending[from].bucket == b && pending[from].conversation_id == conversation_id {
        from
    } else {
        pending_position(pending, b, conversation_id, from + 1)
    }
}

/// Pending usage after a sample.
pub open spec fn pending_plus(
    pending: Seq<PendingView>,
    b: BucketId,
    conversation_id: Seq<char>,
    s: ModelStats,
) -> Seq<PendingView> {
    let i = pending_position(pending, b, conversation_id, 0);
    if i < pending.len() {
        pending.update(i, PendingView { stats: pending[i].stats.plus(s), ..pending[i] })
    } else {
        pending.push(PendingView { bucket: b, conversation_id, stats: s })
    }
}

/// Whether pending usage belongs to a conversation that has become known.
pub open spec fn concerns(p: PendingView, s: SessionView) -> bool {
    p.conversation_id == s.conversation_id && p.bucket.model == s.model
}

/// Whether nothing remains to be learned of usage in a bucket.
pub open spec fn is_settled(b: BucketId, s: SessionView) -> bool {
    s.confirmed && b.effort != "unknown"@
}

/// Totals and pending usage after the first entries were settled for a
/// conversation.
pub open spec fn settle(a: AgentView, pending: Seq<PendingView>, s: SessionView) -> (
    AgentView,
    Seq<PendingView>,
)
    decreases pending.len(),
{
    if pending.len() == 0 {
        (a, Seq::empty())
    } else {
        let (b, kept) = settle(a, pending.drop_last(), s);
        let p = pending.last();
        if concerns(p, s) {
            let to = settled_bucket(p.bucket, s);
            (
                if to == p.bucket {
                    b
                } else {
                    moved(b, p.bucket, to, p.stats)
                },
                if is_settled(to, s) {
                    kept
                } else {
                    pending_plus(kept, to, p.conversation_id, p.stats)
                },
            )
        } else {
            (b, kept.push(p))
        }
    }
}

/// All that is pending for a bucket.
pub open spec fn pending_total(pending: Seq<PendingView>, b: BucketId) -> ModelStats
    decreases pending.len(),
{
    if pending.len() == 0 {
        super::stats::no_stats()
    } else if pending.last().bucket == b {
        pending_total(pending.drop_last(), b).plus(pending.last().stats)
    } else {
        pending_total(pending.drop_last(), b)
    }
}

/// The state after a conversation without an id became known: usage of unknown
/// effort that is not pending for some conversation takes its effort.
pub open spec fn adopt_unknown(u: UsageView, s: SessionView) -> UsageView {
    let from = super::stats::bucket_of(s.provider, s.model, "unknown"@);
    let to = super::stats::bucket_of(s.provider, s.model, s.effort);
    let movable = stats_at(u.codex.buckets, from).minus(pending_total(u.pending, from));
    if s.model.len() == 0 || s.effort.len() == 0 || s.effort == "unknown"@
        || !u.codex.buckets.dom().contains(from) || movable == super::stats::no_stats() {
        u
    } else {
        UsageView { codex: moved(u.codex, from, to, movable), ..u }
    }
}

/// The state after usage was moved to where a conversation says that it belongs.
pub open spec fn attributed(u: UsageView, s: SessionView) -> UsageView {
    if s.conversation_id.len() == 0 {
        adopt_unknown(u, s)
    } else if s.model.len() == 0 {
        u
    } else {
        let (codex, pending) = settle(u.codex, u.pending, s);
        UsageView { codex, pending, ..u }
    }
}

/// The state after `service` reported a conversation: it is the last one now.
pub open spec fn session_known(u: UsageView, service: Seq<char>, s: SessionView) -> UsageView {
    attributed(
        UsageView {
            sessions: if s.conversation_id.len() > 0 {
                u.sessions.insert(s.conversation_id, s)
            } else {
                u.sessions
            },
            last_sessions: u.last_sessions.insert(service, s),
            last_session: Some(s),
            ..u
        },
        s,
    )
}

/// Whether a conversation is the one with the given id.
pub open spec fn is_conversation(s: Option<SessionView>, id: Seq<char>) -> bool {
    s matches Some(s) && s.conversation_id == id
}

/// The state after `service` stated the effort of a conversation by its id. The
/// last conversations stay what they were, unless they are this very one.
pub open spec fn effort_known(u: UsageView, service: Seq<char>, s: SessionView) -> UsageView {
    attributed(
        UsageView {
            sessions: u.sessions.insert(s.conversation_id, s),
            last_sessions: if is_conversation(
                session_at(u.last_sessions, service),
                s.conversation_id,
            ) {
                u.last_sessions.insert(service, s)
            } else {
                u.last_sessions
            },
            last_session: if is_conversation(u.last_session, s.conversation_id) {
                Some(s)
            } else {
                u.last_session
            },
            ..u
        },
        s,
    )
}

/// A conversation with another effort; one of which nothing else is known where
/// there is none.
pub open spec fn with_effort(s: Option<SessionView>, effort: Seq<char>) -> SessionView {
    match s {
        Some(s) => SessionView { effort, ..s },
        None => SessionView {
            conversation_id: Seq::empty(),
            provider: "OpenAI"@,
            confirmed: false,
            model: Seq::empty(),
            effort,
        },
    }
}

/// The state after `service` stated an effort and no conversation: `s` is the last
/// conversation of all with that effort. For the metrics of the service the effort
/// goes with the last conversation of the service itself, so that they take nothing
/// of another process.
pub open spec fn last_effort_known(u: UsageView, service: Seq<char>, s: SessionView) -> UsageView {
    attributed(
        UsageView {
            sessions: if s.conversation_id.len() > 0 {
                u.sessions.insert(s.conversation_id, s)
            } else {
                u.sessions
            },
            last_sessions: u.last_sessions.insert(
                service,
                with_effort(session_at(u.last_sessions, service), s.effort),
            ),
            last_session: Some(s),
            ..u
        },
        s,
    )
}

/// A conversation by its id.
pub open spec fn session_at(m: Map<Seq<char>, SessionView>, k: Seq<char>) -> Option<SessionView> {
    if m.dom().contains(k) {
        Some(m[k])
    } else {
        None
    }
}

/// The conversation that an SSE completion belongs to. With an id that is the
/// conversation of this id and no other; without one it is the last that was
/// reported.
pub open spec fn sse_session(u: UsageView, attrs: Seq<KeyValue>) -> Option<SessionView> {
    let id = crate::otlp::text_attr_or_empty(attrs, "conversation.id"@);
    if id.len() > 0 {
        session_at(u.sessions, id)
    } else {
        u.last_session
    }
}

/// The first text unless it is empty, else the second.
pub open spec fn or_else(a: Seq<char>, b: Seq<char>) -> Seq<char> {
    if a.len() > 0 {
        a
    } else {
        b
    }
}

/// The provider of a conversation.
pub open spec fn provider_of(s: Option<SessionView>) -> Seq<char> {
    match s {
        Some(s) => s.provider,
        None => "OpenAI"@,
    }
}

/// The model of a conversation.
pub open spec fn model_of(s: Option<SessionView>) -> Seq<char> {
    match s {
        Some(s) => s.model,
        None => Seq::empty(),
    }
}

/// The effort of a conversation.
pub open spec fn effort_of(s: Option<SessionView>) -> Seq<char> {
    match s {
        Some(s) => s.effort,
        None => Seq::empty(),
    }
}

/// The tokens of an SSE completion.
pub open spec fn sse_stats(attrs: Seq<KeyValue>) -> ModelStats {
    ModelStats {
        input_tokens: crate::otlp::counter_attr(attrs, "input_token_count"@),
        output_tokens: crate::otlp::counter_attr(attrs, "output_token_count"@),
        cache_read_tokens: crate::otlp::counter_attr(attrs, "cached_token_count"@),
        cache_creation_tokens: crate::otlp::counter_attr(attrs, "cache_write_token_count"@),
        reasoning_output_tokens: crate::otlp::counter_attr(attrs, "reasoning_token_count"@),
        ..super::stats::no_stats()
    }
}

/// Whether a log record is an SSE completion that counts: it carries tokens,
/// and not merely those of the tool context.
pub open spec fn is_sse_usage(attrs: Seq<KeyValue>) -> bool {
    let s = sse_stats(attrs);
    let only_input = s == ModelStats {
        input_tokens: s.input_tokens,
        ..super::stats::no_stats()
    };
    &&& crate::otlp::text_attr(attrs, "event.name"@) == Some("codex.sse_event"@)
    &&& crate::otlp::text_attr(attrs, "event.kind"@) == Some("response.completed"@)
    &&& s != super::stats::no_stats()
    &&& !(only_input && s.input_tokens == crate::otlp::counter_attr(attrs, "tool_token_count"@))
}

/// The bucket of an SSE completion.
pub open spec fn sse_bucket(u: UsageView, attrs: Seq<KeyValue>) -> BucketId {
    let session = sse_session(u, attrs);
    super::stats::bucket_of(
        provider_of(session),
        or_else(
            crate::otlp::text_attr_or_empty(attrs, "model"@),
            or_else(crate::otlp::text_attr_or_empty(attrs, "slug"@), model_of(session)),
        ),
        or_else(
            crate::otlp::text_attr_or_empty(attrs, "model_reasoning_effort"@),
            effort_of(session),
        ),
    )
}

/// Whether usage in a bucket stays pending: its conversation is known by id,
/// but not yet its provider or effort.
pub open spec fn sse_pending(u: UsageView, attrs: Seq<KeyValue>) -> bool {
    let session = sse_session(u, attrs);
    crate::otlp::text_attr_or_empty(attrs, "conversation.id"@).len() > 0 && !(session is Some
        && is_settled(sse_bucket(u, attrs), session->0))
}

/// Whether Codex tokens of a model are counted from the given source.
pub open spec fn codex_counts(u: UsageView, model: Seq<char>, source: Source) -> bool {
    u.codex_sources.dom().contains(model) ==> u.codex_sources[model] == source
}

/// The state after an SSE completion.
pub open spec fn sse_completed(u: UsageView, attrs: Seq<KeyValue>, now: int) -> Tally {
    let b = sse_bucket(u, attrs);
    if is_sse_usage(attrs) && codex_counts(u, b.model, Source::Logs) {
        let s = sse_stats(attrs);
        let counted = codex_recorded(u, b, s, now);
        Tally {
            usage: UsageView {
                pending: if sse_pending(u, attrs) {
                    pending_plus(
                        u.pending,
                        b,
                        crate::otlp::text_attr_or_empty(attrs, "conversation.id"@),
                        s,
                    )
                } else {
                    u.pending
                },
                codex_sources: counted.codex_sources.insert(b.model, Source::Logs),
                ..counted
            },
            hits: 1,
        }
    } else {
        Tally { usage: u, hits: 0 }
    }
}

/// The state after a Codex log record.
pub open spec fn codex_log(u: UsageView, service: Seq<char>, log: LogRecord, now: int) -> Tally {
    let attrs = log.attributes@;
    let known = if starts_conversation(log) && session_of(attrs) is Some {
        session_known(u, service, session_of(attrs)->0)
    } else {
        u
    };
    sse_completed(known, attrs, now)
}

/// The conversation whose effort a `handle_responses` span states: the one with
/// its id, or else the last that was reported.
pub open spec fn span_session(u: UsageView, attrs: Seq<KeyValue>) -> SessionView {
    let id = crate::otlp::text_attr_or_empty(attrs, "conversation.id"@);
    let effort = crate::otlp::text_attr_or_empty(attrs, "codex.request.reasoning_effort"@);
    let known = if id.len() > 0 {
        session_at(u.sessions, id)
    } else {
        u.last_session
    };
    if id.len() > 0 && known is None {
        SessionView {
            conversation_id: id,
            model: crate::otlp::text_attr_or_empty(attrs, "model"@),
            ..with_effort(None, effort)
        }
    } else {
        with_effort(known, effort)
    }
}

/// The state after the attributes of a `handle_responses` span.
pub open spec fn effort_seen(u: UsageView, service: Seq<char>, attrs: Seq<KeyValue>) -> Tally {
    if crate::otlp::text_attr_or_empty(attrs, "codex.request.reasoning_effort"@).len() == 0 {
        Tally { usage: u, hits: 0 }
    } else {
        let s = span_session(u, attrs);
        Tally {
            usage: if crate::otlp::text_attr_or_empty(attrs, "conversation.id"@).len() > 0 {
                effort_known(u, service, s)
            } else {
                last_effort_known(u, service, s)
            },
            hits: 1,
        }
    }
}

/// The counters for a number of Codex tokens of a type, where the type is known
/// and not the total of the others.
pub open spec fn codex_token_stats(kind: Seq<char>, n: u64) -> Option<ModelStats> {
    let z = super::stats::no_stats();
    if kind == "input"@ {
        Some(ModelStats { input_tokens: n, ..z })
    } else if kind == "output"@ {
        Some(ModelStats { output_tokens: n, ..z })
    } else if kind == "cached_input"@ {
        Some(ModelStats { cache_read_tokens: n, ..z })
    } else if kind == "cache_write_input"@ {
        Some(ModelStats { cache_creation_tokens: n, ..z })
    } else if kind == "reasoning_output"@ {
        Some(ModelStats { reasoning_output_tokens: n, ..z })
    } else {
        None
    }
}

/// The bucket of a Codex data point: its model, and the provider and effort of
/// the last conversation that the same service reported.
pub open spec fn codex_point_bucket(u: UsageView, service: Seq<char>, attrs: Seq<KeyValue>) -> BucketId {
    let session = session_at(u.last_sessions, service);
    super::stats::bucket_of(
        provider_of(session),
        crate::otlp::text_attr_or_empty(attrs, "model"@),
        effort_of(session),
    )
}

/// The state after a data point of `codex.turn.token_usage`.
pub open spec fn codex_token_point(
    u: UsageView,
    service: Seq<char>,
    dp: HistogramDataPoint,
    now: int,
) -> Tally {
    let attrs = dp.attributes@;
    let b = codex_point_bucket(u, service, attrs);
    match codex_token_stats(
        crate::otlp::text_attr_or_empty(attrs, "token_type"@),
        histogram_counter(dp),
    ) {
        Some(s) if codex_counts(u, b.model, Source::Metrics) => {
            let counted = codex_recorded(u, b, s, now);
            Tally {
                usage: UsageView {
                    codex_sources: counted.codex_sources.insert(b.model, Source::Metrics),
                    ..counted
                },
                hits: 1,
            }
        },
        _ => Tally { usage: u, hits: 0 },
    }
}

/// The state after a data point of `codex.conversation.turn.count`.
pub open spec fn codex_turn_point(
    u: UsageView,
    service: Seq<char>,
    dp: NumberDataPoint,
    now: int,
) -> Tally {
    let s = ModelStats { request_count: point_counter(dp), ..super::stats::no_stats() };
    Tally {
        usage: codex_recorded(u, codex_point_bucket(u, service, dp.attributes@), s, now),
        hits: 1,
    }
}

/// The state after a data point of `codex.turn.e2e_duration_ms`.
pub open spec fn codex_duration_point(
    u: UsageView,
    service: Seq<char>,
    dp: HistogramDataPoint,
    now: int,
) -> Tally {
    let s = ModelStats { duration_ms: histogram_counter(dp), ..super::stats::no_stats() };
    Tally {
        usage: codex_recorded(u, codex_point_bucket(u, service, dp.attributes@), s, now),
        hits: 1,
    }
}

// ---------------------------------------------------------------------------
// Batches
// ---------------------------------------------------------------------------

/// One step after another.
pub open spec fn then_step(before: Tally, step: Tally) -> Tally {
    Tally { usage: step.usage, hits: before.hits + step.hits }
}

/// The state after a log record.
#[verifier::opaque]
pub open spec fn log_taken(u: UsageView, service: Seq<char>, log: LogRecord, now: int) -> Tally {
    if service == crate::agent::claude_code() {
        claude_log(u, log, now)
    } else if is_codex(service) {
        codex_log(u, service, log, now)
    } else {
        Tally { usage: u, hits: 0 }
    }
}

/// The state after log records.
pub open spec fn records_taken(u: UsageView, service: Seq<char>, logs: Seq<LogRecord>, now: int) -> Tally
    decreases logs.len(),
{
    if logs.len() == 0 {
        Tally { usage: u, hits: 0 }
    } else {
        let before = records_taken(u, service, logs.drop_last(), now);
        then_step(before, log_taken(before.usage, service, logs.last(), now))
    }
}

/// The state after the log records of several scopes.
pub open spec fn scope_logs_taken(
    u: UsageView,
    service: Seq<char>,
    scopes: Seq<ScopeLogs>,
    now: int,
) -> Tally
    decreases scopes.len(),
{
    if scopes.len() == 0 {
        Tally { usage: u, hits: 0 }
    } else {
        let before = scope_logs_taken(u, service, scopes.drop_last(), now);
        then_step(
            before,
            records_taken(before.usage, service, scopes.last().log_records@, now),
        )
    }
}

/// The state after the log records of several resources.
pub open spec fn logs_taken(u: UsageView, resources: Seq<ResourceLogs>, now: int) -> Tally
    decreases resources.len(),
{
    if resources.len() == 0 {
        Tally { usage: u, hits: 0 }
    } else {
        let before = logs_taken(u, resources.drop_last(), now);
        let r = resources.last();
        then_step(
            before,
            scope_logs_taken(
                before.usage,
                crate::otlp::service_of(r.resource),
                r.scope_logs@,
                now,
            ),
        )
    }
}

/// The state after span events.
pub open spec fn events_taken(u: UsageView, service: Seq<char>, events: Seq<Event>) -> Tally
    decreases events.len(),
{
    if events.len() == 0 {
        Tally { usage: u, hits: 0 }
    } else {
        let before = events_taken(u, service, events.drop_last());
        let ev = events.last();
        if event_starts_conversation(ev) && session_of(ev.attributes@) is Some {
            Tally {
                usage: session_known(before.usage, service, session_of(ev.attributes@)->0),
                hits: before.hits + 1,
            }
        } else {
            before
        }
    }
}

/// The state after a span.
#[verifier::opaque]
pub open spec fn span_taken(u: UsageView, service: Seq<char>, span: Span) -> Tally {
    let before = events_taken(u, service, span.events@);
    if span.name@ == "handle_responses"@ {
        then_step(before, effort_seen(before.usage, service, span.attributes@))
    } else {
        before
    }
}

/// The state after spans.
pub open spec fn spans_taken(u: UsageView, service: Seq<char>, spans: Seq<Span>) -> Tally
    decreases spans.len(),
{
    if spans.len() == 0 {
        Tally { usage: u, hits: 0 }
    } else {
        let before = spans_taken(u, service, spans.drop_last());
        then_step(before, span_taken(before.usage, service, spans.last()))
    }
}

/// The state after the spans of several scopes.
pub open spec fn scope_spans_taken(u: UsageView, service: Seq<char>, scopes: Seq<ScopeSpans>) -> Tally
    decreases scopes.len(),
{
    if scopes.len() == 0 {
        Tally { usage: u, hits: 0 }
    } else {
        let before = scope_spans_taken(u, service, scopes.drop_last());
        then_step(before, spans_taken(before.usage, service, scopes.last().spans@))
    }
}

/// The state after the spans of several resources.
pub open spec fn traces_taken(u: UsageView, resources: Seq<ResourceSpans>) -> Tally
    decreases resources.len(),
{
    if resources.len() == 0 {
        Tally { usage: u, hits: 0 }
    } else {
        let before = traces_taken(u, resources.drop_last());
        let r = resources.last();
        let service = crate::otlp::service_of(r.resource);
        if is_codex(service) {
            then_step(before, scope_spans_taken(before.usage, service, r.scope_spans@))
        } else {
            before
        }
    }
}

/// What a metric measures, as far as usage is concerned.
pub enum Measure {
    ClaudeTokens,
    ClaudeCost,
    CodexTokens,
    CodexTurns,
    CodexDuration,
    Nothing,
}

/// What a metric of a service measures.
pub open spec fn measure_of(service: Seq<char>, name: Seq<char>) -> Measure {
    if service == crate::agent::claude_code() && name == "claude_code.token.usage"@ {
        Measure::ClaudeTokens
    } else if service == crate::agent::claude_code() && name == "claude_code.cost.usage"@ {
        Measure::ClaudeCost
    } else if is_codex(service) && name == "codex.turn.token_usage"@ {
        Measure::CodexTokens
    } else if is_codex(service) && name == "codex.conversation.turn.count"@ {
        Measure::CodexTurns
    } else if is_codex(service) && name == "codex.turn.e2e_duration_ms"@ {
        Measure::CodexDuration
    } else {
        Measure::Nothing
    }
}

/// Whether data points are increments.
pub open spec fn is_delta(temporality: i32) -> bool {
    crate::proto::temporality_of(temporality) == Some(crate::proto::Temporality::Delta)
}

/// The state after a number data point.
#[verifier::opaque]
pub open spec fn number_point_taken(
    u: UsageView,
    service: Seq<char>,
    measure: Measure,
    dp: NumberDataPoint,
    now: int,
) -> Tally {
    match measure {
        Measure::ClaudeTokens => claude_token_point(u, dp, now),
        Measure::ClaudeCost => claude_cost_point(u, dp, now),
        Measure::CodexTurns => codex_turn_point(u, service, dp, now),
        _ => Tally { usage: u, hits: 0 },
    }
}

/// The state after number data points.
pub open spec fn number_points_taken(
    u: UsageView,
    service: Seq<char>,
    measure: Measure,
    points: Seq<NumberDataPoint>,
    now: int,
) -> Tally
    decreases points.len(),
{
    if points.len() == 0 {
        Tally { usage: u, hits: 0 }
    } else {
        let before = number_points_taken(u, service, measure, points.drop_last(), now);
        then_step(before, number_point_taken(before.usage, service, measure, points.last(), now))
    }
}

/// The state after a histogram data point.
#[verifier::opaque]
pub open spec fn histogram_point_taken(
    u: UsageView,
    service: Seq<char>,
    measure: Measure,
    dp: HistogramDataPoint,
    now: int,
) -> Tally {
    match measure {
        Measure::CodexTokens => codex_token_point(u, service, dp, now),
        Measure::CodexDuration => codex_duration_point(u, service, dp, now),
        _ => Tally { usage: u, hits: 0 },
    }
}

/// The state after histogram data points.
pub open spec fn histogram_points_taken(
    u: UsageView,
    service: Seq<char>,
    measure: Measure,
    points: Seq<HistogramDataPoint>,
    now: int,
) -> Tally
    decreases points.len(),
{
    if points.len() == 0 {
        Tally { usage: u, hits: 0 }
    } else {
        let before = histogram_points_taken(u, service, measure, points.drop_last(), now);
        then_step(before, histogram_point_taken(before.usage, service, measure, points.last(), now))
    }
}

/// The state after a metric. Sums and histograms count where their data points
/// are increments.
#[verifier::opaque]
pub open spec fn metric_taken(u: UsageView, service: Seq<char>, metric: Metric, now: int) -> Tally {
    let measure = measure_of(service, metric.name@);
    match metric.data {
        Some(MetricData::Sum(sum)) => if is_delta(sum.aggregation_temporality) {
            number_points_taken(u, service, measure, sum.data_points@, now)
        } else {
            Tally { usage: u, hits: 0 }
        },
        Some(MetricData::Histogram(hist)) => if is_delta(hist.aggregation_temporality) {
            histogram_points_taken(u, service, measure, hist.data_points@, now)
        } else {
            Tally { usage: u, hits: 0 }
        },
        _ => Tally { usage: u, hits: 0 },
    }
}

/// The state after metrics.
pub open spec fn metric_list_taken(u: UsageView, service: Seq<char>, metrics: Seq<Metric>, now: int) -> Tally
    decreases metrics.len(),
{
    if metrics.len() == 0 {
        Tally { usage: u, hits: 0 }
    } else {
        let before = metric_list_taken(u, service, metrics.drop_last(), now);
        then_step(before, metric_taken(before.usage, service, metrics.last(), now))
    }
}

/// The state after the metrics of several scopes.
pub open spec fn scope_metrics_taken(
    u: UsageView,
    service: Seq<char>,
    scopes: Seq<ScopeMetrics>,
    now: int,
) -> Tally
    decreases scopes.len(),
{
    if scopes.len() == 0 {
        Tally { usage: u, hits: 0 }
    } else {
        let before = scope_metrics_taken(u, service, scopes.drop_last(), now);
        then_step(
            before,
            metric_list_taken(before.usage, service, scopes.last().metrics@, now),
        )
    }
}

/// The state after the metrics of several resources.
pub open spec fn metrics_taken(u: UsageView, resources: Seq<ResourceMetrics>, now: int) -> Tally
    decreases resources.len(),
{
    if resources.len() == 0 {
        Tally { usage: u, hits: 0 }
    } else {
        let before = metrics_taken(u, resources.drop_last(), now);
        let r = resources.last();
        then_step(
            before,
            scope_metrics_taken(
                before.usage,
                crate::otlp::service_of(r.resource),
                r.scope_metrics@,
                now,
            ),
        )
    }
}

/// The number of samples, as far as it can be counted.
pub open spec fn capped_count(n: nat) -> usize {
    if n <= usize::MAX {
        n as usize
    } else {
        usize::MAX
    }
}

} // verus!
