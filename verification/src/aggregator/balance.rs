//! The buckets of the Anthropic agent add up to its total, whatever is folded
//! into another bucket or replaced.

use super::conservation::Counter;
use super::model::{Measure, Source, UsageView};
use super::stats::{BucketId, ModelStats};
use crate::otlp::{
    HistogramDataPoint, KeyValue, LogRecord, Metric, MetricData, NumberDataPoint, ResourceLogs,
    ResourceMetrics, ResourceSpans, ScopeLogs, ScopeMetrics,
};
use vstd::prelude::*;

verus! {

/// The name of a model without its variant.
pub open spec fn bare(model: Seq<char>) -> Seq<char> {
    crate::text::before(model, '[')
}

/// Whether a name is the one full name that goes with its bare name.
pub open spec fn is_full_name(model: Seq<char>, names: spec_fn(Seq<char>) -> Seq<char>) -> bool {
    super::stats::known(model) == names(super::stats::known(bare(model)))
}

/// Whether a request names a model in full, or by the bare name of the full one.
pub open spec fn is_request_name(model: Seq<char>, names: spec_fn(Seq<char>) -> Seq<char>) -> bool {
    is_full_name(model, names) || (model.len() > 0 && bare(model) == model && bare(names(model))
        == model)
}

/// The bucket that holds what metrics counted for a bare name and an effort.
pub open spec fn home(
    key: (Seq<char>, Seq<char>),
    names: spec_fn(Seq<char>) -> Seq<char>,
) -> BucketId {
    BucketId { provider: super::stats::known("anthropic"@), model: names(key.0), effort: key.1 }
}

/// Whether a full name goes with its bare name, and is known for it.
pub open spec fn is_settled_name(
    u: UsageView,
    name: Seq<char>,
    names: spec_fn(Seq<char>) -> Seq<char>,
) -> bool {
    let full = names(name);
    &&& full.len() > 0
    &&& super::stats::known(bare(full)) == name
    &&& full == "unknown"@ || bare(full).len() == 0 || u.canonical.dom().contains(bare(full))
}

/// Whether a full name is remembered for itself or for its bare name.
pub open spec fn is_remembered(
    name: Seq<char>,
    full: Seq<char>,
    names: spec_fn(Seq<char>) -> Seq<char>,
) -> bool {
    full.len() > 0 && is_full_name(full, names) && (full == name || bare(full) == name)
}

/// Whether a counter of the Anthropic agent is in balance: its buckets add up to
/// the total, and what metrics counted stands in the bucket of the full name.
pub open spec fn claude_balanced(
    u: UsageView,
    c: Counter,
    names: spec_fn(Seq<char>) -> Seq<char>,
) -> bool {
    &&& u.claude.buckets.dom().finite()
    &&& super::conservation::bucket_sum(u.claude.buckets, c) == c.of(u.claude.total)
    &&& forall|key: (Seq<char>, Seq<char>)| #[trigger]
        u.claude_metrics.dom().contains(key) ==> {
            &&& is_settled_name(u, key.0, names)
            &&& c.of(u.claude_metrics[key]) <= c.of(
                super::model::stats_at(u.claude.buckets, home(key, names)),
            )
        }
    &&& forall|name: Seq<char>| #[trigger]
        u.canonical.dom().contains(name) ==> is_remembered(name, u.canonical[name], names)
}

/// Whether a sample leaves a counter within its limit.
pub open spec fn has_room(total: ModelStats, s: ModelStats, c: Counter) -> bool {
    c.of(total) + c.of(s) <= c.limit()
}

// ---------------------------------------------------------------------------
// Single steps
// ---------------------------------------------------------------------------

/// The state after a request itself was counted, without its tokens and cost.
pub open spec fn request_counted(u: UsageView, attrs: Seq<KeyValue>, now: int) -> UsageView {
    super::model::claude_recorded(
        u,
        super::model::claude_request_bucket(u, attrs),
        super::model::claude_request_stats(attrs),
        now,
    )
}

/// Whether a request brings no counter over its limit and, where it replaces what
/// metrics counted, names the model as they did or by the bare name.
pub open spec fn request_fits(
    u: UsageView,
    attrs: Seq<KeyValue>,
    now: int,
    c: Counter,
    names: spec_fn(Seq<char>) -> Seq<char>,
) -> bool {
    let b = super::model::claude_request_bucket(u, attrs);
    let counted = request_counted(u, attrs, now);
    let s = super::model::claude_usage_stats(attrs);
    &&& has_room(u.claude.total, super::model::claude_request_stats(attrs), c)
    &&& s.spec_has_usage() ==> has_room(
        super::model::metrics_cleared(counted, b).claude.total,
        s,
        c,
    )
    &&& super::model::counted_from_metrics(u, super::model::claude_source_key(b))
        ==> is_request_name(crate::otlp::text_attr_or_empty(attrs, "model"@), names)
}

/// Whether a log record fits.
pub open spec fn record_fits(
    u: UsageView,
    service: Seq<char>,
    log: LogRecord,
    now: int,
    c: Counter,
    names: spec_fn(Seq<char>) -> Seq<char>,
) -> bool {
    service == crate::agent::claude_code() && super::model::is_claude_request(log) ==> request_fits(
        u,
        log.attributes@,
        now,
        c,
        names,
    )
}

/// What a data point counts, where it is one of the Anthropic agent.
pub open spec fn claude_point_stats(measure: Measure, dp: NumberDataPoint) -> Option<ModelStats> {
    match measure {
        Measure::ClaudeTokens => super::model::claude_token_stats(
            crate::otlp::text_attr_or_empty(dp.attributes@, "type"@),
            super::model::point_counter(dp),
        ),
        Measure::ClaudeCost => Some(
            ModelStats { cost_usd: super::model::point_usd(dp), ..super::stats::no_stats() },
        ),
        _ => None,
    }
}

/// Whether request logs count for the model and effort of a bucket.
pub open spec fn is_shut_out(u: UsageView, b: BucketId) -> bool {
    let key = super::model::claude_source_key(b);
    u.claude_sources.dom().contains(key) && u.claude_sources[key] == Source::Logs
}

/// Whether a data point names its model in full and, where it counts, brings no
/// counter over its limit.
pub open spec fn point_fits(
    u: UsageView,
    measure: Measure,
    dp: NumberDataPoint,
    c: Counter,
    names: spec_fn(Seq<char>) -> Seq<char>,
) -> bool {
    let model = crate::otlp::text_attr_or_empty(dp.attributes@, "model"@);
    measure is ClaudeTokens || measure is ClaudeCost ==> {
        &&& is_full_name(model, names)
        &&& claude_point_stats(measure, dp) matches Some(s) ==> is_shut_out(
            u,
            super::model::claude_point_bucket(dp.attributes@),
        ) || has_room(u.claude.total, s, c)
    }
}

proof fn lemma_position(s: Seq<char>, c: char, from: int)
    requires
        0 <= from <= s.len(),
    ensures
        ({
            let p = crate::text::position_from(s, c, from);
            &&& from <= p <= s.len()
            &&& forall|j: int| from <= j < p ==> s[j] != c
            &&& p < s.len() ==> s[p] == c
        }),
    decreases s.len() - from,
{
    if from < s.len() && s[from] != c {
        lemma_position(s, c, from + 1);
    }
}

/// A bare name is bare, and so is one without a bracket.
proof fn lemma_bare(model: Seq<char>)
    ensures
        bare(bare(model)) == bare(model),
        bare(model).len() <= model.len(),
        (forall|i: int| 0 <= i < model.len() ==> model[i] != '[') ==> bare(model) == model,
{
    lemma_position(model, '[', 0);
    lemma_position(bare(model), '[', 0);
    assert(bare(bare(model)) =~= bare(model));
    assert((forall|i: int| 0 <= i < model.len() ==> model[i] != '[') ==> bare(model) =~= model);
}

/// A sample that fits keeps the sum, and gives its bucket exactly what it counts.
proof fn lemma_claude_recorded(
    u: UsageView,
    b: BucketId,
    s: ModelStats,
    now: int,
    c: Counter,
)
    requires
        u.claude.buckets.dom().finite(),
        super::conservation::bucket_sum(u.claude.buckets, c) == c.of(u.claude.total),
        has_room(u.claude.total, s, c),
    ensures
        ({
            let v = super::model::claude_recorded(u, b, s, now);
            &&& v.claude.buckets.dom().finite()
            &&& super::conservation::bucket_sum(v.claude.buckets, c) == c.of(v.claude.total)
            &&& c.of(v.claude.total) == c.of(u.claude.total) + c.of(s)
            &&& forall|k: BucketId|
                c.of(#[trigger] super::model::stats_at(v.claude.buckets, k)) == c.of(
                    super::model::stats_at(u.claude.buckets, k),
                ) + (if k == b {
                    c.of(s)
                } else {
                    0
                })
        }),
{
    let held = super::model::stats_at(u.claude.buckets, b);
    super::conservation::lemma_within_sum(u.claude.buckets, b, c);
    super::conservation::lemma_sum_insert(u.claude.buckets, b, held.plus(s), c);
}

/// Two bare names never share a bucket.
proof fn lemma_homes_differ(
    u: UsageView,
    a: (Seq<char>, Seq<char>),
    b: (Seq<char>, Seq<char>),
    names: spec_fn(Seq<char>) -> Seq<char>,
)
    requires
        is_settled_name(u, a.0, names),
        is_settled_name(u, b.0, names),
        home(a, names) == home(b, names),
    ensures
        a == b,
{
}

/// A request that replaces metrics goes into the bucket that holds them.
proof fn lemma_request_goes_home(
    u: UsageView,
    attrs: Seq<KeyValue>,
    c: Counter,
    names: spec_fn(Seq<char>) -> Seq<char>,
)
    requires
        claude_balanced(u, c, names),
        super::model::counted_from_metrics(
            u,
            super::model::claude_source_key(super::model::claude_request_bucket(u, attrs)),
        ),
        is_request_name(crate::otlp::text_attr_or_empty(attrs, "model"@), names),
    ensures
        ({
            let b = super::model::claude_request_bucket(u, attrs);
            b == home(super::model::claude_source_key(b), names)
        }),
{
    let raw = crate::otlp::text_attr_or_empty(attrs, "model"@);
    let b = super::model::claude_request_bucket(u, attrs);
    let key = super::model::claude_source_key(b);
    reveal_strlit("unknown");
    lemma_bare(raw);
    lemma_bare("unknown"@);
    assert(b.effort.len() > 0);
    assert(key.1 == b.effort);
    assert(is_settled_name(u, key.0, names));
    if u.canonical.dom().contains(raw) {
        let full = u.canonical[raw];
        assert(is_remembered(raw, full, names));
        assert(b.model == full);
    } else {
        assert(b.model == super::stats::known(raw));
        if !is_full_name(raw, names) {
            assert(b.model == raw);
            assert(key.0 == raw);
            assert(names(raw) == "unknown"@);
        }
    }
}

/// A request keeps the balance.
proof fn lemma_request_keeps_balance(
    u: UsageView,
    attrs: Seq<KeyValue>,
    now: int,
    c: Counter,
    names: spec_fn(Seq<char>) -> Seq<char>,
)
    requires
        claude_balanced(u, c, names),
        request_fits(u, attrs, now, c, names),
    ensures
        claude_balanced(
            super::model::claude_log_usage(
                request_counted(u, attrs, now),
                super::model::claude_request_bucket(u, attrs),
                super::model::claude_usage_stats(attrs),
                now,
            ),
            c,
            names,
        ),
{
    let b = super::model::claude_request_bucket(u, attrs);
    let key = super::model::claude_source_key(b);
    let s = super::model::claude_usage_stats(attrs);
    let counted = request_counted(u, attrs, now);
    let cleared = super::model::metrics_cleared(counted, b);
    let v = super::model::claude_log_usage(counted, b, s, now);
    lemma_claude_recorded(u, b, super::model::claude_request_stats(attrs), now, c);
    if s.spec_has_usage() {
        let old_metrics = counted.claude_metrics[key];
        let held = super::model::stats_at(counted.claude.buckets, b);
        if super::model::counted_from_metrics(counted, key) {
            lemma_request_goes_home(u, attrs, c, names);
            assert(u.claude_metrics.dom().contains(key));
            assert(c.of(old_metrics) <= c.of(held));
            super::conservation::lemma_within_sum(counted.claude.buckets, b, c);
            super::conservation::lemma_sum_insert(
                counted.claude.buckets,
                b,
                held.minus(old_metrics),
                c,
            );
        }
        assert(super::conservation::bucket_sum(cleared.claude.buckets, c) == c.of(
            cleared.claude.total,
        ));
        lemma_claude_recorded(cleared, b, s, now, c);
        assert forall|k: (Seq<char>, Seq<char>)| #[trigger]
            v.claude_metrics.dom().contains(k) implies is_settled_name(v, k.0, names) && c.of(
            v.claude_metrics[k],
        ) <= c.of(super::model::stats_at(v.claude.buckets, home(k, names))) by {
            assert(u.claude_metrics.dom().contains(k));
            assert(is_settled_name(u, k.0, names));
            let at = home(k, names);
            assert(c.of(super::model::stats_at(counted.claude.buckets, at)) >= c.of(
                super::model::stats_at(u.claude.buckets, at),
            ));
            if super::model::counted_from_metrics(counted, key) && at == b {
                lemma_homes_differ(u, k, key, names);
            }
            assert(c.of(super::model::stats_at(cleared.claude.buckets, at)) >= c.of(
                u.claude_metrics[k],
            ));
            assert(c.of(super::model::stats_at(v.claude.buckets, at)) >= c.of(
                super::model::stats_at(cleared.claude.buckets, at),
            ));
        }
        assert forall|name: Seq<char>| #[trigger]
            v.canonical.dom().contains(name) implies is_remembered(
            name,
            v.canonical[name],
            names,
        ) by {
            assert(u.canonical.dom().contains(name));
        }
    } else {
        assert forall|k: (Seq<char>, Seq<char>)| #[trigger]
            v.claude_metrics.dom().contains(k) implies is_settled_name(v, k.0, names) && c.of(
            v.claude_metrics[k],
        ) <= c.of(super::model::stats_at(v.claude.buckets, home(k, names))) by {
            assert(u.claude_metrics.dom().contains(k));
            assert(is_settled_name(u, k.0, names));
        }
    }
}

/// Folding the buckets of a bare name changes no sum.
proof fn lemma_folded_keeps_sum(
    m: Map<BucketId, ModelStats>,
    short: Seq<char>,
    full: Seq<char>,
    c: Counter,
)
    requires
        m.dom().finite(),
        short != full,
        super::conservation::bucket_sum(m, c) <= c.limit(),
    ensures
        super::model::folded(m, short, full).dom().finite(),
        super::conservation::bucket_sum(super::model::folded(m, short, full), c)
            == super::conservation::bucket_sum(m, c),
    decreases m.dom().len(),
{
    if m.dom().len() == 0 {
        assert(super::model::folded(m, short, full) =~= m);
    } else {
        let k = m.dom().choose();
        assert(m.dom().contains(k));
        let rest = m.remove(k);
        let before = super::model::folded(rest, short, full);
        let to = if k.model == short {
            BucketId { model: full, ..k }
        } else {
            k
        };
        super::conservation::lemma_sum_remove(m, k, c);
        lemma_folded_keeps_sum(rest, short, full, c);
        assert(rest.insert(k, m[k]) =~= m);
        super::usage::lemma_fold_one(rest, k, m[k], short, full);
        super::conservation::lemma_within_sum(before, to, c);
        super::conservation::lemma_sum_insert(
            before,
            to,
            super::model::stats_at(before, to).plus(m[k]),
            c,
        );
    }
}

/// A full name on a metric keeps the balance.
proof fn lemma_model_seen_keeps_balance(
    u: UsageView,
    full: Seq<char>,
    c: Counter,
    names: spec_fn(Seq<char>) -> Seq<char>,
)
    requires
        claude_balanced(u, c, names),
        is_full_name(full, names),
    ensures
        ({
            let v = super::model::claude_model_seen(u, full);
            &&& claude_balanced(v, c, names)
            &&& v.claude.total == u.claude.total
            &&& v.claude_sources == u.claude_sources
            &&& v.claude_metrics == u.claude_metrics
            &&& full.len() == 0 || bare(full).len() == 0 || v.canonical.dom().contains(bare(full))
        }),
{
    let v = super::model::claude_model_seen(u, full);
    let short = bare(full);
    lemma_bare(full);
    if v != u {
        if v.claude != u.claude {
            lemma_folded_keeps_sum(u.claude.buckets, short, full, c);
        }
        assert forall|key: (Seq<char>, Seq<char>)| #[trigger]
            v.claude_metrics.dom().contains(key) implies is_settled_name(v, key.0, names) && c.of(
            v.claude_metrics[key],
        ) <= c.of(super::model::stats_at(v.claude.buckets, home(key, names))) by {
            assert(u.claude_metrics.dom().contains(key));
            assert(is_settled_name(u, key.0, names));
            if v.claude != u.claude {
                assert(names(key.0) != short);
            }
        }
        assert forall|name: Seq<char>| #[trigger]
            v.canonical.dom().contains(name) implies is_remembered(
            name,
            v.canonical[name],
            names,
        ) by {
            assert(name == full || name == short || u.canonical.dom().contains(name));
        }
    }
}

/// A data point keeps the balance.
proof fn lemma_point_keeps_balance(
    u: UsageView,
    service: Seq<char>,
    measure: Measure,
    dp: NumberDataPoint,
    now: int,
    c: Counter,
    names: spec_fn(Seq<char>) -> Seq<char>,
)
    requires
        claude_balanced(u, c, names),
        point_fits(u, measure, dp, c, names),
    ensures
        claude_balanced(
            super::model::number_point_taken(u, service, measure, dp, now).usage,
            c,
            names,
        ),
{
    reveal(super::model::number_point_taken);
    let v = super::model::number_point_taken(u, service, measure, dp, now).usage;
    if measure is ClaudeTokens || measure is ClaudeCost {
        let model = crate::otlp::text_attr_or_empty(dp.attributes@, "model"@);
        let seen = super::model::claude_model_seen(u, model);
        let b = super::model::claude_point_bucket(dp.attributes@);
        let key = super::model::claude_source_key(b);
        lemma_model_seen_keeps_balance(u, model, c, names);
        if v != seen {
            let s = claude_point_stats(measure, dp)->0;
            assert(v == super::model::claude_metric_usage(seen, b, s, now).usage);
            lemma_claude_recorded(seen, b, s, now, c);
            reveal_strlit("unknown");
            lemma_bare(model);
            lemma_bare("unknown"@);
            assert(b == home(key, names));
            super::conservation::lemma_within_sum(seen.claude.buckets, b, c);
            assert forall|k: (Seq<char>, Seq<char>)| #[trigger]
                v.claude_metrics.dom().contains(k) implies is_settled_name(v, k.0, names) && c.of(
                v.claude_metrics[k],
            ) <= c.of(super::model::stats_at(v.claude.buckets, home(k, names))) by {
                if k != key {
                    assert(seen.claude_metrics.dom().contains(k));
                    assert(is_settled_name(seen, k.0, names));
                } else {
                    if seen.claude_metrics.dom().contains(key) {
                        assert(is_settled_name(seen, key.0, names));
                    }
                }
            }
            assert forall|name: Seq<char>| #[trigger]
                v.canonical.dom().contains(name) implies is_remembered(
                name,
                v.canonical[name],
                names,
            ) by {
                assert(seen.canonical.dom().contains(name));
            }
        }
    } else {
        lemma_same_balance(u, v, c, names);
    }
}

/// The balance depends on the totals of the agent, on what metrics counted and on
/// the names that are remembered.
proof fn lemma_same_balance(
    u: UsageView,
    v: UsageView,
    c: Counter,
    names: spec_fn(Seq<char>) -> Seq<char>,
)
    requires
        claude_balanced(u, c, names),
        v.claude == u.claude,
        v.claude_metrics == u.claude_metrics,
        v.canonical == u.canonical,
    ensures
        claude_balanced(v, c, names),
{
    assert forall|key: (Seq<char>, Seq<char>)| #[trigger]
        v.claude_metrics.dom().contains(key) implies is_settled_name(v, key.0, names) && c.of(
        v.claude_metrics[key],
    ) <= c.of(super::model::stats_at(v.claude.buckets, home(key, names))) by {
        assert(u.claude_metrics.dom().contains(key));
        assert(is_settled_name(u, key.0, names));
    }
    assert forall|name: Seq<char>| #[trigger] v.canonical.dom().contains(name) implies is_remembered(
        name,
        v.canonical[name],
        names,
    ) by {
        assert(u.canonical.dom().contains(name));
    }
}

// ---------------------------------------------------------------------------
// Batches
// ---------------------------------------------------------------------------

/// Whether log records fit, one after another.
pub open spec fn records_fit(
    u: UsageView,
    service: Seq<char>,
    logs: Seq<LogRecord>,
    now: int,
    c: Counter,
    names: spec_fn(Seq<char>) -> Seq<char>,
) -> bool
    decreases logs.len(),
{
    logs.len() > 0 ==> {
        let before = super::model::records_taken(u, service, logs.drop_last(), now).usage;
        &&& records_fit(u, service, logs.drop_last(), now, c, names)
        &&& record_fits(before, service, logs.last(), now, c, names)
    }
}

/// Whether the log records of several scopes fit.
pub open spec fn scope_logs_fit(
    u: UsageView,
    service: Seq<char>,
    scopes: Seq<ScopeLogs>,
    now: int,
    c: Counter,
    names: spec_fn(Seq<char>) -> Seq<char>,
) -> bool
    decreases scopes.len(),
{
    scopes.len() > 0 ==> {
        let before = super::model::scope_logs_taken(u, service, scopes.drop_last(), now).usage;
        &&& scope_logs_fit(u, service, scopes.drop_last(), now, c, names)
        &&& records_fit(before, service, scopes.last().log_records@, now, c, names)
    }
}

/// Whether the log records of several resources fit.
pub open spec fn logs_fit(
    u: UsageView,
    resources: Seq<ResourceLogs>,
    now: int,
    c: Counter,
    names: spec_fn(Seq<char>) -> Seq<char>,
) -> bool
    decreases resources.len(),
{
    resources.len() > 0 ==> {
        let before = super::model::logs_taken(u, resources.drop_last(), now).usage;
        let r = resources.last();
        &&& logs_fit(u, resources.drop_last(), now, c, names)
        &&& scope_logs_fit(
            before,
            crate::otlp::service_of(r.resource),
            r.scope_logs@,
            now,
            c,
            names,
        )
    }
}

/// Whether number data points fit, one after another.
pub open spec fn points_fit(
    u: UsageView,
    service: Seq<char>,
    measure: Measure,
    points: Seq<NumberDataPoint>,
    now: int,
    c: Counter,
    names: spec_fn(Seq<char>) -> Seq<char>,
) -> bool
    decreases points.len(),
{
    points.len() > 0 ==> {
        let before = super::model::number_points_taken(
            u,
            service,
            measure,
            points.drop_last(),
            now,
        ).usage;
        &&& points_fit(u, service, measure, points.drop_last(), now, c, names)
        &&& point_fits(before, measure, points.last(), c, names)
    }
}

/// Whether a metric fits.
pub open spec fn metric_fits(
    u: UsageView,
    service: Seq<char>,
    metric: Metric,
    now: int,
    c: Counter,
    names: spec_fn(Seq<char>) -> Seq<char>,
) -> bool {
    metric.data matches Some(MetricData::Sum(sum)) ==> (super::model::is_delta(
        sum.aggregation_temporality,
    ) ==> points_fit(
        u,
        service,
        super::model::measure_of(service, metric.name@),
        sum.data_points@,
        now,
        c,
        names,
    ))
}

/// Whether metrics fit, one after another.
pub open spec fn metric_list_fit(
    u: UsageView,
    service: Seq<char>,
    metrics: Seq<Metric>,
    now: int,
    c: Counter,
    names: spec_fn(Seq<char>) -> Seq<char>,
) -> bool
    decreases metrics.len(),
{
    metrics.len() > 0 ==> {
        let before = super::model::metric_list_taken(u, service, metrics.drop_last(), now).usage;
        &&& metric_list_fit(u, service, metrics.drop_last(), now, c, names)
        &&& metric_fits(before, service, metrics.last(), now, c, names)
    }
}

/// Whether the metrics of several scopes fit.
pub open spec fn scope_metrics_fit(
    u: UsageView,
    service: Seq<char>,
    scopes: Seq<ScopeMetrics>,
    now: int,
    c: Counter,
    names: spec_fn(Seq<char>) -> Seq<char>,
) -> bool
    decreases scopes.len(),
{
    scopes.len() > 0 ==> {
        let before = super::model::scope_metrics_taken(u, service, scopes.drop_last(), now).usage;
        &&& scope_metrics_fit(u, service, scopes.drop_last(), now, c, names)
        &&& metric_list_fit(before, service, scopes.last().metrics@, now, c, names)
    }
}

/// Whether the metrics of several resources fit.
pub open spec fn metrics_fit(
    u: UsageView,
    resources: Seq<ResourceMetrics>,
    now: int,
    c: Counter,
    names: spec_fn(Seq<char>) -> Seq<char>,
) -> bool
    decreases resources.len(),
{
    resources.len() > 0 ==> {
        let before = super::model::metrics_taken(u, resources.drop_last(), now).usage;
        let r = resources.last();
        &&& metrics_fit(u, resources.drop_last(), now, c, names)
        &&& scope_metrics_fit(
            before,
            crate::otlp::service_of(r.resource),
            r.scope_metrics@,
            now,
            c,
            names,
        )
    }
}

proof fn lemma_record_keeps_balance(
    u: UsageView,
    service: Seq<char>,
    log: LogRecord,
    now: int,
    c: Counter,
    names: spec_fn(Seq<char>) -> Seq<char>,
)
    requires
        claude_balanced(u, c, names),
        record_fits(u, service, log, now, c, names),
    ensures
        claude_balanced(super::model::log_taken(u, service, log, now).usage, c, names),
{
    reveal(super::model::log_taken);
    let v = super::model::log_taken(u, service, log, now).usage;
    if service == crate::agent::claude_code() && super::model::is_claude_request(log) {
        lemma_request_keeps_balance(u, log.attributes@, now, c, names);
    } else {
        lemma_same_balance(u, v, c, names);
    }
}

proof fn lemma_records_keep_balance(
    u: UsageView,
    service: Seq<char>,
    logs: Seq<LogRecord>,
    now: int,
    c: Counter,
    names: spec_fn(Seq<char>) -> Seq<char>,
)
    requires
        claude_balanced(u, c, names),
        records_fit(u, service, logs, now, c, names),
    ensures
        claude_balanced(super::model::records_taken(u, service, logs, now).usage, c, names),
    decreases logs.len(),
{
    if logs.len() > 0 {
        lemma_records_keep_balance(u, service, logs.drop_last(), now, c, names);
        let v = super::model::records_taken(u, service, logs.drop_last(), now).usage;
        lemma_record_keeps_balance(v, service, logs.last(), now, c, names);
    }
}

proof fn lemma_scope_logs_keep_balance(
    u: UsageView,
    service: Seq<char>,
    scopes: Seq<ScopeLogs>,
    now: int,
    c: Counter,
    names: spec_fn(Seq<char>) -> Seq<char>,
)
    requires
        claude_balanced(u, c, names),
        scope_logs_fit(u, service, scopes, now, c, names),
    ensures
        claude_balanced(super::model::scope_logs_taken(u, service, scopes, now).usage, c, names),
    decreases scopes.len(),
{
    if scopes.len() > 0 {
        lemma_scope_logs_keep_balance(u, service, scopes.drop_last(), now, c, names);
        let v = super::model::scope_logs_taken(u, service, scopes.drop_last(), now).usage;
        lemma_records_keep_balance(v, service, scopes.last().log_records@, now, c, names);
    }
}

proof fn lemma_logs_keep_balance(
    u: UsageView,
    resources: Seq<ResourceLogs>,
    now: int,
    c: Counter,
    names: spec_fn(Seq<char>) -> Seq<char>,
)
    requires
        claude_balanced(u, c, names),
        logs_fit(u, resources, now, c, names),
    ensures
        claude_balanced(super::model::logs_taken(u, resources, now).usage, c, names),
    decreases resources.len(),
{
    if resources.len() > 0 {
        lemma_logs_keep_balance(u, resources.drop_last(), now, c, names);
        let v = super::model::logs_taken(u, resources.drop_last(), now).usage;
        let r = resources.last();
        lemma_scope_logs_keep_balance(
            v,
            crate::otlp::service_of(r.resource),
            r.scope_logs@,
            now,
            c,
            names,
        );
    }
}

proof fn lemma_points_keep_balance(
    u: UsageView,
    service: Seq<char>,
    measure: Measure,
    points: Seq<NumberDataPoint>,
    now: int,
    c: Counter,
    names: spec_fn(Seq<char>) -> Seq<char>,
)
    requires
        claude_balanced(u, c, names),
        points_fit(u, service, measure, points, now, c, names),
    ensures
        claude_balanced(
            super::model::number_points_taken(u, service, measure, points, now).usage,
            c,
            names,
        ),
    decreases points.len(),
{
    if points.len() > 0 {
        lemma_points_keep_balance(u, service, measure, points.drop_last(), now, c, names);
        let v = super::model::number_points_taken(
            u,
            service,
            measure,
            points.drop_last(),
            now,
        ).usage;
        lemma_point_keeps_balance(v, service, measure, points.last(), now, c, names);
    }
}

/// Histograms are of Codex alone.
proof fn lemma_histogram_leaves(
    u: UsageView,
    service: Seq<char>,
    measure: Measure,
    points: Seq<HistogramDataPoint>,
    now: int,
)
    ensures
        ({
            let v = super::model::histogram_points_taken(u, service, measure, points, now).usage;
            &&& v.claude == u.claude
            &&& v.claude_metrics == u.claude_metrics
            &&& v.canonical == u.canonical
        }),
    decreases points.len(),
{
    reveal(super::model::histogram_point_taken);
    if points.len() > 0 {
        lemma_histogram_leaves(u, service, measure, points.drop_last(), now);
    }
}

proof fn lemma_metric_keeps_balance(
    u: UsageView,
    service: Seq<char>,
    metric: Metric,
    now: int,
    c: Counter,
    names: spec_fn(Seq<char>) -> Seq<char>,
)
    requires
        claude_balanced(u, c, names),
        metric_fits(u, service, metric, now, c, names),
    ensures
        claude_balanced(super::model::metric_taken(u, service, metric, now).usage, c, names),
{
    reveal(super::model::metric_taken);
    let measure = super::model::measure_of(service, metric.name@);
    match metric.data {
        Some(MetricData::Sum(sum)) => {
            if super::model::is_delta(sum.aggregation_temporality) {
                lemma_points_keep_balance(u, service, measure, sum.data_points@, now, c, names);
            }
        },
        Some(MetricData::Histogram(hist)) => {
            lemma_histogram_leaves(u, service, measure, hist.data_points@, now);
            lemma_same_balance(
                u,
                super::model::metric_taken(u, service, metric, now).usage,
                c,
                names,
            );
        },
        _ => {},
    }
}

proof fn lemma_metric_list_keeps_balance(
    u: UsageView,
    service: Seq<char>,
    metrics: Seq<Metric>,
    now: int,
    c: Counter,
    names: spec_fn(Seq<char>) -> Seq<char>,
)
    requires
        claude_balanced(u, c, names),
        metric_list_fit(u, service, metrics, now, c, names),
    ensures
        claude_balanced(super::model::metric_list_taken(u, service, metrics, now).usage, c, names),
    decreases metrics.len(),
{
    if metrics.len() > 0 {
        lemma_metric_list_keeps_balance(u, service, metrics.drop_last(), now, c, names);
        let v = super::model::metric_list_taken(u, service, metrics.drop_last(), now).usage;
        lemma_metric_keeps_balance(v, service, metrics.last(), now, c, names);
    }
}

proof fn lemma_scope_metrics_keep_balance(
    u: UsageView,
    service: Seq<char>,
    scopes: Seq<ScopeMetrics>,
    now: int,
    c: Counter,
    names: spec_fn(Seq<char>) -> Seq<char>,
)
    requires
        claude_balanced(u, c, names),
        scope_metrics_fit(u, service, scopes, now, c, names),
    ensures
        claude_balanced(super::model::scope_metrics_taken(u, service, scopes, now).usage, c, names),
    decreases scopes.len(),
{
    if scopes.len() > 0 {
        lemma_scope_metrics_keep_balance(u, service, scopes.drop_last(), now, c, names);
        let v = super::model::scope_metrics_taken(u, service, scopes.drop_last(), now).usage;
        lemma_metric_list_keeps_balance(v, service, scopes.last().metrics@, now, c, names);
    }
}

proof fn lemma_metrics_keep_balance(
    u: UsageView,
    resources: Seq<ResourceMetrics>,
    now: int,
    c: Counter,
    names: spec_fn(Seq<char>) -> Seq<char>,
)
    requires
        claude_balanced(u, c, names),
        metrics_fit(u, resources, now, c, names),
    ensures
        claude_balanced(super::model::metrics_taken(u, resources, now).usage, c, names),
    decreases resources.len(),
{
    if resources.len() > 0 {
        lemma_metrics_keep_balance(u, resources.drop_last(), now, c, names);
        let v = super::model::metrics_taken(u, resources.drop_last(), now).usage;
        let r = resources.last();
        lemma_scope_metrics_keep_balance(
            v,
            crate::otlp::service_of(r.resource),
            r.scope_metrics@,
            now,
            c,
            names,
        );
    }
}

/// The buckets of the Anthropic agent add up to its total: they do at the start,
/// and batches of log records, spans and metrics keep it so, where no counter goes
/// over its limit on the way, metrics name each bare model in one way only, and
/// requests that replace metrics use that name or the bare one.
pub proof fn law_claude_buckets_add_up(
    u: UsageView,
    logs: Seq<ResourceLogs>,
    spans: Seq<ResourceSpans>,
    metrics: Seq<ResourceMetrics>,
    now: int,
    c: Counter,
    names: spec_fn(Seq<char>) -> Seq<char>,
)
    ensures
        claude_balanced(super::model::empty_usage(), c, names),
        claude_balanced(u, c, names) ==> super::conservation::bucket_sum(u.claude.buckets, c)
            == c.of(u.claude.total),
        claude_balanced(u, c, names) && logs_fit(u, logs, now, c, names) ==> claude_balanced(
            super::model::logs_taken(u, logs, now).usage,
            c,
            names,
        ),
        claude_balanced(u, c, names) ==> claude_balanced(
            super::model::traces_taken(u, spans).usage,
            c,
            names,
        ),
        claude_balanced(u, c, names) && metrics_fit(u, metrics, now, c, names) ==> claude_balanced(
            super::model::metrics_taken(u, metrics, now).usage,
            c,
            names,
        ),
{
    if claude_balanced(u, c, names) {
        super::laws::law_spans_count_nothing(u, spans);
        lemma_same_balance(u, super::model::traces_taken(u, spans).usage, c, names);
        if logs_fit(u, logs, now, c, names) {
            lemma_logs_keep_balance(u, logs, now, c, names);
        }
        if metrics_fit(u, metrics, now, c, names) {
            lemma_metrics_keep_balance(u, metrics, now, c, names);
        }
    }
}

} // verus!
