//! Usage aggregation: token, cost and duration totals out of the telemetry of
//! coding agents.

pub mod additive;
pub mod balance;
pub mod change;
pub mod claude;
pub mod codex;
pub mod conservation;
pub mod laws;
pub mod model;
pub mod naming;
pub mod samples;
pub mod stats;
pub mod usage;

use crate::agent::{claude_code_name, is_claude_code};
use crate::clock::{format_rfc3339, now_unix_nanos};
use crate::otlp::{
    service_name, Event, HistogramDataPoint, LogRecord, LogsRequest, Metric, MetricData,
    MetricsRequest, NumberDataPoint, ScopeLogs, ScopeMetrics, ScopeSpans, Span, TraceRequest,
};
use crate::proto::{temporality, Temporality};
use crate::sorted::SortedMap;
use crate::text::same_text;
use codex::{extract_codex_conversation_starts, extract_event_conversation_starts, is_codex_service};
use model::{Measure, UsageView};
use stats::{BucketId, ModelStats};
use usage::{Agent, Usage};
use vstd::prelude::*;

verus! {

/// The totals of a bucket.
pub struct BucketStats {
    pub provider: String,
    pub model: String,
    pub effort: String,
    pub stats: ModelStats,
}

impl View for BucketStats {
    type V = (BucketId, ModelStats);

    open spec fn view(&self) -> (BucketId, ModelStats) {
        (
            BucketId { provider: self.provider@, model: self.model@, effort: self.effort@ },
            self.stats,
        )
    }
}

/// The totals of an agent, and those of its buckets by their keys.
pub struct AgentStats {
    pub total: ModelStats,
    pub buckets: SortedMap<BucketStats>,
}

/// The totals of an agent, and those of its buckets by their keys.
#[verifier::ext_equal]
pub struct AgentStatsView {
    pub total: ModelStats,
    pub buckets: Map<Seq<char>, (BucketId, ModelStats)>,
}

impl View for AgentStats {
    type V = AgentStatsView;

    open spec fn view(&self) -> AgentStatsView {
        AgentStatsView { total: self.total, buckets: self.buckets@ }
    }
}

/// The totals at some time.
pub struct UsageSnapshot {
    pub started_at: String,
    pub last_updated: Option<String>,
    pub agents: SortedMap<AgentStats>,
}

impl UsageSnapshot {
    /// Whether agents and buckets stand in the order of their keys.
    pub open spec fn wf(&self) -> bool {
        &&& self.agents.wf()
        &&& forall|i: int|
            0 <= i < self.agents.spec_rows().len() ==> (
            #[trigger] self.agents.spec_rows()[i]).value.buckets.wf()
    }
}

/// Buckets by the keys under which they are published.
pub open spec fn published(m: Map<BucketId, ModelStats>) -> Map<
    Seq<char>,
    (BucketId, ModelStats),
> {
    Map::new(
        |k: Seq<char>| exists|b: BucketId| m.dom().contains(b) && stats::bucket_key(b) == k,
        |k: Seq<char>|
            {
                let b = choose|b: BucketId| m.dom().contains(b) && stats::bucket_key(b) == k;
                (b, m[b])
            },
    )
}

/// The agents that were heard of, under their names.
pub open spec fn published_agents(u: UsageView) -> Map<Seq<char>, AgentStatsView> {
    let none = Map::<Seq<char>, AgentStatsView>::empty();
    let claude = if u.claude.buckets =~= Map::empty() {
        none
    } else {
        none.insert(
            crate::agent::claude_code(),
            AgentStatsView { total: u.claude.total, buckets: published(u.claude.buckets) },
        )
    };
    if u.codex.buckets =~= Map::empty() {
        claude
    } else {
        claude.insert(
            "codex"@,
            AgentStatsView { total: u.codex.total, buckets: published(u.codex.buckets) },
        )
    }
}

/// Aggregates usage for the lifetime of the process.
pub struct Aggregator {
    started_at: i128,
    usage: Usage,
}

impl View for Aggregator {
    type V = UsageView;

    closed spec fn view(&self) -> UsageView {
        self.usage@
    }
}

/// What a metric of a service measures.
fn measure(service: &str, name: &str) -> (r: Measure)
    ensures
        r == model::measure_of(service@, name@),
{
    if is_claude_code(service) && same_text(name, "claude_code.token.usage") {
        Measure::ClaudeTokens
    } else if is_claude_code(service) && same_text(name, "claude_code.cost.usage") {
        Measure::ClaudeCost
    } else if is_codex_service(service) && same_text(name, "codex.turn.token_usage") {
        Measure::CodexTokens
    } else if is_codex_service(service) && same_text(name, "codex.conversation.turn.count") {
        Measure::CodexTurns
    } else if is_codex_service(service) && same_text(name, "codex.turn.e2e_duration_ms") {
        Measure::CodexDuration
    } else {
        Measure::Nothing
    }
}

/// Whether data points are increments.
fn is_delta_temporality(n: i32) -> (r: bool)
    ensures
        r == model::is_delta(n),
{
    match temporality(n) {
        Some(t) => t == Temporality::Delta,
        None => false,
    }
}

/// Counts one sample where there was one.
fn count_if(hits: usize, hit: bool) -> (r: usize)
    ensures
        r == (if hit && hits < usize::MAX {
            hits + 1
        } else {
            hits as int
        }),
{
    if hit && hits < usize::MAX {
        hits + 1
    } else {
        hits
    }
}

/// Adds two counts of samples.
fn count_both(a: usize, b: usize) -> (r: usize)
    ensures
        r == (if a + b <= usize::MAX {
            a + b
        } else {
            usize::MAX as int
        }),
{
    a.saturating_add(b)
}

impl Usage {
    /// Takes in a log record; whether it counts.
    fn take_log(&mut self, service: &String, log: &LogRecord, now: i128) -> (r: bool)
        requires
            old(self).wf(),
        ensures
            final(self).wf(),
            final(self)@ == model::log_taken(old(self)@, service@, *log, now as int).usage,
            model::log_taken(old(self)@, service@, *log, now as int).hits == (if r {
                1nat
            } else {
                0nat
            }),
    {
        proof {
            reveal(model::log_taken);
        }
        if is_claude_code(service.as_str()) {
            return self.ingest_claude_log(log, now);
        }
        if !is_codex_service(service.as_str()) {
            return false;
        }
        if let Some(session) = extract_codex_conversation_starts(log) {
            self.update_codex_session(service, session);
        }
        self.ingest_codex_sse(log, now)
    }

    /// Takes in log records.
    fn take_records(&mut self, service: &String, logs: &Vec<LogRecord>, now: i128) -> (r: usize)
        requires
            old(self).wf(),
        ensures
            final(self).wf(),
            final(self)@ == model::records_taken(old(self)@, service@, logs@, now as int).usage,
            r == model::capped_count(
                model::records_taken(old(self)@, service@, logs@, now as int).hits,
            ),
    {
        let ghost start = self@;
        let mut hits: usize = 0;
        for i in 0..logs.len()
            invariant
                self.wf(),
                self@ == model::records_taken(start, service@, logs@.take(i as int), now as int).usage,
                hits == model::capped_count(
                    model::records_taken(start, service@, logs@.take(i as int), now as int).hits,
                ),
        {
            assert(logs@.take(i + 1).drop_last() =~= logs@.take(i as int));
            let hit = self.take_log(service, &logs[i], now);
            hits = count_if(hits, hit);
        }
        assert(logs@.take(logs@.len() as int) =~= logs@);
        hits
    }

    /// Takes in span events.
    fn take_events(&mut self, service: &String, events: &Vec<Event>) -> (r: usize)
        requires
            old(self).wf(),
        ensures
            final(self).wf(),
            final(self)@ == model::events_taken(old(self)@, service@, events@).usage,
            r == model::capped_count(model::events_taken(old(self)@, service@, events@).hits),
    {
        let ghost start = self@;
        let mut hits: usize = 0;
        for i in 0..events.len()
            invariant
                self.wf(),
                self@ == model::events_taken(start, service@, events@.take(i as int)).usage,
                hits == model::capped_count(
                    model::events_taken(start, service@, events@.take(i as int)).hits,
                ),
        {
            assert(events@.take(i + 1).drop_last() =~= events@.take(i as int));
            if let Some(session) = extract_event_conversation_starts(&events[i]) {
                self.update_codex_session(service, session);
                hits = count_if(hits, true);
            }
        }
        assert(events@.take(events@.len() as int) =~= events@);
        hits
    }

    /// Takes in a span.
    fn take_span(&mut self, service: &String, span: &Span) -> (r: usize)
        requires
            old(self).wf(),
        ensures
            final(self).wf(),
            final(self)@ == model::span_taken(old(self)@, service@, *span).usage,
            r == model::capped_count(model::span_taken(old(self)@, service@, *span).hits),
    {
        proof {
            reveal(model::span_taken);
        }
        let hits: usize = self.take_events(service, &span.events);
        if same_text(span.name.as_str(), "handle_responses") {
            let hit = self.update_codex_effort_from_request_attrs(service, &span.attributes);
            count_if(hits, hit)
        } else {
            hits
        }
    }

    /// Takes in spans.
    fn take_spans(&mut self, service: &String, spans: &Vec<Span>) -> (r: usize)
        requires
            old(self).wf(),
        ensures
            final(self).wf(),
            final(self)@ == model::spans_taken(old(self)@, service@, spans@).usage,
            r == model::capped_count(model::spans_taken(old(self)@, service@, spans@).hits),
    {
        let ghost start = self@;
        let mut hits: usize = 0;
        for i in 0..spans.len()
            invariant
                self.wf(),
                self@ == model::spans_taken(start, service@, spans@.take(i as int)).usage,
                hits == model::capped_count(
                    model::spans_taken(start, service@, spans@.take(i as int)).hits,
                ),
        {
            assert(spans@.take(i + 1).drop_last() =~= spans@.take(i as int));
            let more: usize = self.take_span(service, &spans[i]);
            hits = count_both(hits, more);
        }
        assert(spans@.take(spans@.len() as int) =~= spans@);
        hits
    }

    /// Takes in a number data point; whether it counts.
    fn take_number_point(
        &mut self,
        service: &String,
        measure: &Measure,
        dp: &NumberDataPoint,
        now: i128,
    ) -> (r: bool)
        requires
            old(self).wf(),
        ensures
            final(self).wf(),
            ({
                let after = model::number_point_taken(
                    old(self)@,
                    service@,
                    *measure,
                    *dp,
                    now as int,
                );
                &&& final(self)@ == after.usage
                &&& after.hits == (if r {
                    1nat
                } else {
                    0nat
                })
            }),
    {
        proof {
            reveal(model::number_point_taken);
        }
        match measure {
            Measure::ClaudeTokens => self.ingest_claude_token(dp, now),
            Measure::ClaudeCost => self.ingest_claude_cost(dp, now),
            Measure::CodexTurns => {
                self.ingest_codex_turn_count(service, dp, now);
                true
            },
            _ => false,
        }
    }

    /// Takes in a histogram data point; whether it counts.
    fn take_histogram_point(
        &mut self,
        service: &String,
        measure: &Measure,
        dp: &HistogramDataPoint,
        now: i128,
    ) -> (r: bool)
        requires
            old(self).wf(),
        ensures
            final(self).wf(),
            ({
                let after = model::histogram_point_taken(
                    old(self)@,
                    service@,
                    *measure,
                    *dp,
                    now as int,
                );
                &&& final(self)@ == after.usage
                &&& after.hits == (if r {
                    1nat
                } else {
                    0nat
                })
            }),
    {
        proof {
            reveal(model::histogram_point_taken);
        }
        match measure {
            Measure::CodexTokens => self.ingest_codex_token(service, dp, now),
            Measure::CodexDuration => {
                self.ingest_codex_duration(service, dp, now);
                true
            },
            _ => false,
        }
    }

    /// Takes in a metric.
    fn take_metric(&mut self, service: &String, metric: &Metric, now: i128) -> (r: usize)
        requires
            old(self).wf(),
        ensures
            final(self).wf(),
            final(self)@ == model::metric_taken(old(self)@, service@, *metric, now as int).usage,
            r == model::capped_count(
                model::metric_taken(old(self)@, service@, *metric, now as int).hits,
            ),
    {
        proof {
            reveal(model::metric_taken);
        }
        let what = measure(service.as_str(), metric.name.as_str());
        let ghost start = self@;
        let mut hits: usize = 0;
        match &metric.data {
            Some(MetricData::Sum(sum)) => {
                if is_delta_temporality(sum.aggregation_temporality) {
                    let points = &sum.data_points;
                    for i in 0..points.len()
                        invariant
                            self.wf(),
                            self@ == model::number_points_taken(
                                start,
                                service@,
                                what,
                                points@.take(i as int),
                                now as int,
                            ).usage,
                            hits == model::capped_count(
                                model::number_points_taken(
                                    start,
                                    service@,
                                    what,
                                    points@.take(i as int),
                                    now as int,
                                ).hits,
                            ),
                    {
                        assert(points@.take(i + 1).drop_last() =~= points@.take(i as int));
                        let hit = self.take_number_point(service, &what, &points[i], now);
                        hits = count_if(hits, hit);
                    }
                    assert(points@.take(points@.len() as int) =~= points@);
                }
            },
            Some(MetricData::Histogram(hist)) => {
                if is_delta_temporality(hist.aggregation_temporality) {
                    let points = &hist.data_points;
                    for i in 0..points.len()
                        invariant
                            self.wf(),
                            self@ == model::histogram_points_taken(
                                start,
                                service@,
                                what,
                                points@.take(i as int),
                                now as int,
                            ).usage,
                            hits == model::capped_count(
                                model::histogram_points_taken(
                                    start,
                                    service@,
                                    what,
                                    points@.take(i as int),
                                    now as int,
                                ).hits,
                            ),
                    {
                        assert(points@.take(i + 1).drop_last() =~= points@.take(i as int));
                        let hit = self.take_histogram_point(service, &what, &points[i], now);
                        hits = count_if(hits, hit);
                    }
                    assert(points@.take(points@.len() as int) =~= points@);
                }
            },
            _ => {},
        }
        hits
    }

    /// Takes in metrics.
    fn take_metrics(&mut self, service: &String, metrics: &Vec<Metric>, now: i128) -> (r: usize)
        requires
            old(self).wf(),
        ensures
            final(self).wf(),
            final(self)@ == model::metric_list_taken(
                old(self)@,
                service@,
                metrics@,
                now as int,
            ).usage,
            r == model::capped_count(
                model::metric_list_taken(old(self)@, service@, metrics@, now as int).hits,
            ),
    {
        let ghost start = self@;
        let mut hits: usize = 0;
        for i in 0..metrics.len()
            invariant
                self.wf(),
                self@ == model::metric_list_taken(
                    start,
                    service@,
                    metrics@.take(i as int),
                    now as int,
                ).usage,
                hits == model::capped_count(
                    model::metric_list_taken(
                        start,
                        service@,
                        metrics@.take(i as int),
                        now as int,
                    ).hits,
                ),
        {
            assert(metrics@.take(i + 1).drop_last() =~= metrics@.take(i as int));
            let more: usize = self.take_metric(service, &metrics[i], now);
            hits = count_both(hits, more);
        }
        assert(metrics@.take(metrics@.len() as int) =~= metrics@);
        hits
    }

    /// Takes in the log records of several scopes.
    fn take_records_scopes(&mut self, service: &String, scopes: &Vec<ScopeLogs>, now: i128) -> (r: usize)
        requires
            old(self).wf(),
        ensures
            final(self).wf(),
            final(self)@ == model::scope_logs_taken(old(self)@, service@, scopes@, now as int).usage,
            r == model::capped_count(
                model::scope_logs_taken(old(self)@, service@, scopes@, now as int).hits,
            ),
    {
        let ghost start = self@;
        let mut hits: usize = 0;
        for j in 0..scopes.len()
            invariant
                self.wf(),
                self@ == model::scope_logs_taken(start, service@, scopes@.take(j as int), now as int).usage,
                hits == model::capped_count(
                    model::scope_logs_taken(start, service@, scopes@.take(j as int), now as int).hits,
                ),
        {
            assert(scopes@.take(j + 1).drop_last() =~= scopes@.take(j as int));
            let n: usize = self.take_records(service, &scopes[j].log_records, now);
            hits = count_both(hits, n);
        }
        assert(scopes@.take(scopes@.len() as int) =~= scopes@);
        hits
    }

    /// Takes in the spans of several scopes.
    fn take_spans_scopes(&mut self, service: &String, scopes: &Vec<ScopeSpans>) -> (r: usize)
        requires
            old(self).wf(),
        ensures
            final(self).wf(),
            final(self)@ == model::scope_spans_taken(old(self)@, service@, scopes@).usage,
            r == model::capped_count(
                model::scope_spans_taken(old(self)@, service@, scopes@).hits,
            ),
    {
        let ghost start = self@;
        let mut hits: usize = 0;
        for j in 0..scopes.len()
            invariant
                self.wf(),
                self@ == model::scope_spans_taken(start, service@, scopes@.take(j as int)).usage,
                hits == model::capped_count(
                    model::scope_spans_taken(start, service@, scopes@.take(j as int)).hits,
                ),
        {
            assert(scopes@.take(j + 1).drop_last() =~= scopes@.take(j as int));
            let n: usize = self.take_spans(service, &scopes[j].spans);
            hits = count_both(hits, n);
        }
        assert(scopes@.take(scopes@.len() as int) =~= scopes@);
        hits
    }

    /// Takes in the metrics of several scopes.
    fn take_metrics_scopes(&mut self, service: &String, scopes: &Vec<ScopeMetrics>, now: i128) -> (r: usize)
        requires
            old(self).wf(),
        ensures
            final(self).wf(),
            final(self)@ == model::scope_metrics_taken(old(self)@, service@, scopes@, now as int).usage,
            r == model::capped_count(
                model::scope_metrics_taken(old(self)@, service@, scopes@, now as int).hits,
            ),
    {
        let ghost start = self@;
        let mut hits: usize = 0;
        for j in 0..scopes.len()
            invariant
                self.wf(),
                self@ == model::scope_metrics_taken(start, service@, scopes@.take(j as int), now as int).usage,
                hits == model::capped_count(
                    model::scope_metrics_taken(start, service@, scopes@.take(j as int), now as int).hits,
                ),
        {
            assert(scopes@.take(j + 1).drop_last() =~= scopes@.take(j as int));
            let n: usize = self.take_metrics(service, &scopes[j].metrics, now);
            hits = count_both(hits, n);
        }
        assert(scopes@.take(scopes@.len() as int) =~= scopes@);
        hits
    }
}

/// Publishing buckets, one at a time.
proof fn lemma_publish_one(m: Map<BucketId, ModelStats>, b: BucketId, s: ModelStats)
    requires
        !m.dom().contains(b),
    ensures
        published(m.insert(b, s)) == published(m).insert(stats::bucket_key(b), (b, s)),
        !published(m).dom().contains(stats::bucket_key(b)),
{
    let key = stats::bucket_key(b);
    let l = published(m.insert(b, s));
    let r = published(m).insert(key, (b, s));
    assert forall|x: BucketId| #[trigger] stats::bucket_key(x) == key implies x == b by {
        stats::law_bucket_keys_are_distinct(x, b);
    }
    assert forall|k: Seq<char>| l.dom().contains(k) == r.dom().contains(k) by {
        if k == key {
            assert(m.insert(b, s).dom().contains(b) && stats::bucket_key(b) == k);
        }
        if l.dom().contains(k) && k != key {
            let x = choose|x: BucketId|
                m.insert(b, s).dom().contains(x) && stats::bucket_key(x) == k;
            assert(m.dom().contains(x) && stats::bucket_key(x) == k);
        }
        if r.dom().contains(k) && k != key {
            let x = choose|x: BucketId| m.dom().contains(x) && stats::bucket_key(x) == k;
            assert(m.insert(b, s).dom().contains(x) && stats::bucket_key(x) == k);
        }
    }
    assert forall|k: Seq<char>| l.dom().contains(k) implies l[k] == r[k] by {
        let x = choose|x: BucketId| m.insert(b, s).dom().contains(x) && stats::bucket_key(x) == k;
        if k != key {
            assert(m.dom().contains(x) && stats::bucket_key(x) == k);
            let y = choose|y: BucketId| m.dom().contains(y) && stats::bucket_key(y) == k;
            stats::law_bucket_keys_are_distinct(x, y);
        }
    }
    assert(l =~= r);
}

impl Agent {
    /// The totals as they are published.
    fn publish(&self) -> (r: AgentStats)
        requires
            self.wf(),
        ensures
            r.buckets.wf(),
            r@ == (AgentStatsView { total: self@.total, buckets: published(self@.buckets) }),
    {
        let mut buckets: SortedMap<BucketStats> = SortedMap::new();
        let ghost rows = self.buckets.spec_rows();
        let count: usize = self.buckets.len();
        proof {
            self.buckets.lemma_rows();
            assert(buckets@ =~= published(crate::table::rows_map(rows.take(0))));
        }
        for i in 0..count
            invariant
                count == rows.len(),
                rows == self.buckets.spec_rows(),
                crate::table::distinct_keys(rows),
                buckets.wf(),
                buckets@ == published(crate::table::rows_map(rows.take(i as int))),
        {
            let row = self.buckets.row(i);
            let entry = BucketStats {
                provider: row.key.provider.clone(),
                model: row.key.model.clone(),
                effort: row.key.effort.clone(),
                stats: row.value,
            };
            proof {
                let front = rows.take(i as int);
                assert(rows.take(i + 1).drop_last() =~= front);
                assert(crate::table::distinct_keys(front)) by {
                    assert forall|a: int, b: int| 0 <= a < b < front.len() implies #[trigger] front[a].key@
                        != #[trigger] front[b].key@ by {
                        assert(rows[a].key@ != rows[b].key@);
                    }
                }
                crate::table::lemma_rows_map(front);
                if crate::table::rows_map(front).dom().contains(row.key@) {
                    let j = choose|j: int|
                        0 <= j < front.len() && #[trigger] front[j].key@ == row.key@;
                    assert(rows[j].key@ != rows[i as int].key@);
                }
                lemma_publish_one(crate::table::rows_map(front), row.key@, row.value);
            }
            buckets.insert(row.key.key(), entry);
        }
        assert(rows.take(rows.len() as int) =~= rows);
        AgentStats { total: self.total, buckets }
    }

    /// Whether nothing was counted for the agent yet.
    fn is_silent(&self) -> (r: bool)
        requires
            self.wf(),
        ensures
            r == (self@.buckets =~= Map::<BucketId, ModelStats>::empty()),
    {
        let r = self.buckets.len() == 0;
        proof {
            self.buckets.lemma_rows();
            if !r {
                let k = self.buckets.spec_rows()[0].key@;
                assert(self@.buckets.dom().contains(k));
            } else {
                assert(self.buckets.spec_rows() =~= Seq::empty());
                assert(self@.buckets =~= Map::<BucketId, ModelStats>::empty());
            }
        }
        r
    }
}

impl Default for Aggregator {
    /// An aggregator that starts now.
    fn default() -> (r: Aggregator)
        ensures
            r.wf(),
            r@ == model::empty_usage(),
    {
        Aggregator::new()
    }
}

impl Aggregator {
    /// Whether the tables inside are well formed.
    pub closed spec fn wf(&self) -> bool {
        self.usage.wf()
    }

    /// When the aggregator was made.
    pub closed spec fn spec_started_at(&self) -> int {
        self.started_at as int
    }

    /// An aggregator that starts at a given time.
    pub fn new_at(now: i128) -> (r: Aggregator)
        ensures
            r.wf(),
            r@ == model::empty_usage(),
            r.spec_started_at() == now,
    {
        Aggregator { started_at: now, usage: Usage::new() }
    }

    /// An aggregator that starts now.
    pub fn new() -> (r: Aggregator)
        ensures
            r.wf(),
            r@ == model::empty_usage(),
    {
        Aggregator::new_at(now_unix_nanos())
    }

    /// Takes in log records that arrived at a given time; how many samples they
    /// gave.
    pub fn ingest_logs_at(&mut self, req: &LogsRequest, now: i128) -> (r: usize)
        requires
            old(self).wf(),
        ensures
            final(self).wf(),
            final(self).spec_started_at() == old(self).spec_started_at(),
            final(self)@ == model::logs_taken(old(self)@, req.resource_logs@, now as int).usage,
            r == model::capped_count(
                model::logs_taken(old(self)@, req.resource_logs@, now as int).hits,
            ),
    {
        let ghost start = self@;
        let ghost origin = self.spec_started_at();
        let resources = &req.resource_logs;
        let mut hits: usize = 0;
        for i in 0..resources.len()
            invariant
                self.wf(),
                self.spec_started_at() == origin,
                resources == &req.resource_logs,
                self@ == model::logs_taken(start, resources@.take(i as int), now as int).usage,
                hits == model::capped_count(
                    model::logs_taken(start, resources@.take(i as int), now as int).hits,
                ),
        {
            assert(resources@.take(i + 1).drop_last() =~= resources@.take(i as int));
            let service = service_name(&resources[i].resource);
            let more: usize = self.usage.take_records_scopes(&service, &resources[i].scope_logs, now);
            hits = count_both(hits, more);
        }
        assert(resources@.take(resources@.len() as int) =~= resources@);
        hits
    }

    /// Takes in spans. Of Codex spans only what they say of conversations is
    /// used; how many times they said something.
    pub fn ingest_traces(&mut self, req: &TraceRequest) -> (r: usize)
        requires
            old(self).wf(),
        ensures
            final(self).wf(),
            final(self).spec_started_at() == old(self).spec_started_at(),
            final(self)@ == model::traces_taken(old(self)@, req.resource_spans@).usage,
            r == model::capped_count(model::traces_taken(old(self)@, req.resource_spans@).hits),
    {
        let ghost start = self@;
        let ghost origin = self.spec_started_at();
        let resources = &req.resource_spans;
        let mut hits: usize = 0;
        for i in 0..resources.len()
            invariant
                self.wf(),
                self.spec_started_at() == origin,
                resources == &req.resource_spans,
                self@ == model::traces_taken(start, resources@.take(i as int)).usage,
                hits == model::capped_count(
                    model::traces_taken(start, resources@.take(i as int)).hits,
                ),
        {
            assert(resources@.take(i + 1).drop_last() =~= resources@.take(i as int));
            let service = service_name(&resources[i].resource);
            if is_codex_service(service.as_str()) {
                let more: usize = self.usage.take_spans_scopes(&service, &resources[i].scope_spans);
                hits = count_both(hits, more);
            }
        }
        assert(resources@.take(resources@.len() as int) =~= resources@);
        hits
    }

    /// Takes in metrics that arrived at a given time; how many samples they
    /// gave.
    pub fn ingest_metrics_at(&mut self, req: &MetricsRequest, now: i128) -> (r: usize)
        requires
            old(self).wf(),
        ensures
            final(self).wf(),
            final(self).spec_started_at() == old(self).spec_started_at(),
            final(self)@ == model::metrics_taken(
                old(self)@,
                req.resource_metrics@,
                now as int,
            ).usage,
            r == model::capped_count(
                model::metrics_taken(old(self)@, req.resource_metrics@, now as int).hits,
            ),
    {
        let ghost start = self@;
        let ghost origin = self.spec_started_at();
        let resources = &req.resource_metrics;
        let mut hits: usize = 0;
        for i in 0..resources.len()
            invariant
                self.wf(),
                self.spec_started_at() == origin,
                resources == &req.resource_metrics,
                self@ == model::metrics_taken(start, resources@.take(i as int), now as int).usage,
                hits == model::capped_count(
                    model::metrics_taken(start, resources@.take(i as int), now as int).hits,
                ),
        {
            assert(resources@.take(i + 1).drop_last() =~= resources@.take(i as int));
            let service = service_name(&resources[i].resource);
            let more: usize = self.usage.take_metrics_scopes(&service, &resources[i].scope_metrics, now);
            hits = count_both(hits, more);
        }
        assert(resources@.take(resources@.len() as int) =~= resources@);
        hits
    }

    /// Takes in log records that arrive now.
    pub fn ingest_logs(&mut self, req: &LogsRequest) -> (r: usize)
        requires
            old(self).wf(),
        ensures
            final(self).wf(),
            final(self).spec_started_at() == old(self).spec_started_at(),
            exists|now: int|
                {
                    let after = #[trigger] model::logs_taken(old(self)@, req.resource_logs@, now);
                    &&& final(self)@ == after.usage
                    &&& r == model::capped_count(after.hits)
                },
    {
        let now: i128 = now_unix_nanos();
        self.ingest_logs_at(req, now)
    }

    /// Takes in metrics that arrive now.
    pub fn ingest_metrics(&mut self, req: &MetricsRequest) -> (r: usize)
        requires
            old(self).wf(),
        ensures
            final(self).wf(),
            final(self).spec_started_at() == old(self).spec_started_at(),
            exists|now: int|
                {
                    let after = #[trigger] model::metrics_taken(
                        old(self)@,
                        req.resource_metrics@,
                        now,
                    );
                    &&& final(self)@ == after.usage
                    &&& r == model::capped_count(after.hits)
                },
    {
        let now: i128 = now_unix_nanos();
        self.ingest_metrics_at(req, now)
    }

    /// The totals now.
    pub fn snapshot(&self) -> (r: UsageSnapshot)
        requires
            self.wf(),
        ensures
            r.wf(),
            r.started_at@ == crate::clock::timestamp_of(self.spec_started_at()),
            crate::clock::text_in(r.last_updated) == (match self@.last_updated {
                Some(t) => Some(crate::clock::timestamp_of(t)),
                None => None,
            }),
            r.agents@ == published_agents(self@),
    {
        let mut agents: SortedMap<AgentStats> = SortedMap::new();
        proof {
            crate::agent::lemma_claude_code();
            reveal_strlit("codex");
            assert(crate::agent::claude_code().len() != "codex"@.len());
        }
        if !self.usage.claude.is_silent() {
            let a = self.usage.claude.publish();
            agents.insert(claude_code_name(), a);
        }
        if !self.usage.codex.is_silent() {
            let a = self.usage.codex.publish();
            agents.insert("codex".to_owned(), a);
        }
        assert(forall|i: int|
            0 <= i < agents.spec_rows().len() ==> (
            #[trigger] agents.spec_rows()[i]).value.buckets.wf());
        UsageSnapshot {
            started_at: format_rfc3339(self.started_at),
            last_updated: match self.usage.last_updated {
                Some(t) => Some(format_rfc3339(t)),
                None => None,
            },
            agents,
        }
    }
}

} // verus!
