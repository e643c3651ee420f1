//! Buckets have names, and are published under them.

use super::conservation::Counter;
use super::model::{AgentView, PendingView, SessionView, UsageView};
use super::stats::{BucketId, ModelStats};
use crate::otlp::{ResourceLogs, ResourceMetrics, ResourceSpans};
use vstd::prelude::*;

verus! {

/// Whether all parts of a bucket's name are there.
pub open spec fn is_labelled(b: BucketId) -> bool {
    b.provider.len() > 0 && b.model.len() > 0 && b.effort.len() > 0
}

/// Whether every bucket of an agent has a provider, a model and an effort.
pub open spec fn buckets_labelled(m: Map<BucketId, ModelStats>) -> bool {
    forall|b: BucketId| #[trigger] m.dom().contains(b) ==> is_labelled(b)
}

/// Whether all that is pending is pending for a bucket with a name.
pub open spec fn pending_labelled(pending: Seq<PendingView>) -> bool {
    forall|i: int| 0 <= i < pending.len() ==> is_labelled((#[trigger] pending[i]).bucket)
}

/// Whether every bucket has a provider, a model and an effort.
pub open spec fn all_labelled(u: UsageView) -> bool {
    &&& buckets_labelled(u.claude.buckets)
    &&& buckets_labelled(u.codex.buckets)
    &&& pending_labelled(u.pending)
}

/// Whether an agent was heard of.
pub open spec fn is_heard_of(a: AgentView) -> bool {
    exists|b: BucketId| #[trigger] a.buckets.dom().contains(b)
}

/// Whether Codex was heard of, if any of its usage is pending.
pub open spec fn pending_is_counted(u: UsageView) -> bool {
    u.pending.len() > 0 ==> is_heard_of(u.codex)
}

/// Whether a step left buckets with names, and an agent that was heard of.
pub open spec fn keeps_names(u: UsageView, v: UsageView) -> bool {
    &&& all_labelled(u) ==> all_labelled(v)
    &&& pending_is_counted(u) ==> pending_is_counted(v)
    &&& is_heard_of(u.claude) ==> is_heard_of(v.claude)
    &&& is_heard_of(u.codex) ==> is_heard_of(v.codex)
}

/// A bucket that is made of parts has a name.
pub proof fn lemma_bucket_is_labelled(provider: Seq<char>, model: Seq<char>, effort: Seq<char>)
    ensures
        is_labelled(super::stats::bucket_of(provider, model, effort)),
{
    reveal_strlit("unknown");
}

proof fn lemma_recorded(a: AgentView, b: BucketId, s: ModelStats)
    requires
        is_labelled(b),
    ensures
        is_heard_of(super::model::recorded(a, b, s)),
        buckets_labelled(a.buckets) ==> buckets_labelled(super::model::recorded(a, b, s).buckets),
{
    assert(super::model::recorded(a, b, s).buckets.dom().contains(b));
}

proof fn lemma_moved(a: AgentView, from: BucketId, to: BucketId, s: ModelStats)
    ensures
        is_heard_of(super::model::moved(a, from, to, s)),
        buckets_labelled(a.buckets) && is_labelled(to) ==> buckets_labelled(
            super::model::moved(a, from, to, s).buckets,
        ),
{
    assert(super::model::moved(a, from, to, s).buckets.dom().contains(to));
}

proof fn lemma_pending_plus(
    pending: Seq<PendingView>,
    b: BucketId,
    id: Seq<char>,
    s: ModelStats,
)
    requires
        is_labelled(b),
        pending_labelled(pending),
    ensures
        pending_labelled(super::model::pending_plus(pending, b, id, s)),
{
    let after = super::model::pending_plus(pending, b, id, s);
    super::laws::lemma_pending_position(pending, b, id, 0);
    assert forall|i: int| 0 <= i < after.len() implies is_labelled(
        (#[trigger] after[i]).bucket,
    ) by {
        if i < pending.len() {
            assert(is_labelled(pending[i].bucket));
        }
    }
}

/// A sample of Codex goes into a bucket with a name.
pub proof fn lemma_codex_sample_keeps_names(
    u: UsageView,
    v: UsageView,
    b: BucketId,
    id: Seq<char>,
    s: ModelStats,
)
    requires
        is_labelled(b),
        v.claude == u.claude,
        v.codex == super::model::recorded(u.codex, b, s),
        v.pending == u.pending || v.pending == super::model::pending_plus(u.pending, b, id, s),
    ensures
        keeps_names(u, v),
{
    lemma_recorded(u.codex, b, s);
    if all_labelled(u) {
        lemma_pending_plus(u.pending, b, id, s);
    }
}

/// A sample of the Anthropic agent goes into a bucket with a name.
pub proof fn lemma_claude_sample_keeps_names(
    u: UsageView,
    v: UsageView,
    b: BucketId,
    s: ModelStats,
)
    requires
        is_labelled(b),
        v.claude == super::model::recorded(u.claude, b, s),
        v.codex == u.codex,
        v.pending == u.pending,
    ensures
        keeps_names(u, v),
{
    lemma_recorded(u.claude, b, s);
}

/// Usage out of a request log goes into a bucket with a name.
pub proof fn lemma_claude_log_keeps_names(u: UsageView, b: BucketId, s: ModelStats, now: int)
    requires
        is_labelled(b),
    ensures
        keeps_names(u, super::model::claude_log_usage(u, b, s, now)),
{
    let v = super::model::claude_log_usage(u, b, s, now);
    let w = super::model::metrics_cleared(u, b);
    assert(is_heard_of(u.claude) ==> is_heard_of(w.claude)) by {
        if is_heard_of(u.claude) {
            let k = choose|k: BucketId| #[trigger] u.claude.buckets.dom().contains(k);
            assert(w.claude.buckets.dom().contains(k));
        }
    }
    assert(buckets_labelled(u.claude.buckets) ==> buckets_labelled(w.claude.buckets));
    if s.spec_has_usage() {
        lemma_claude_sample_keeps_names(w, v, b, s);
    }
}

/// Folding the buckets of a bare name leaves buckets with names.
pub proof fn lemma_model_seen_keeps_names(u: UsageView, full: Seq<char>)
    ensures
        keeps_names(u, super::model::claude_model_seen(u, full)),
{
    let v = super::model::claude_model_seen(u, full);
    let bare = crate::text::before(full, '[');
    if v.claude != u.claude {
        if is_heard_of(u.claude) {
            let k = choose|k: BucketId| #[trigger] u.claude.buckets.dom().contains(k);
            if k.model == bare {
                let moved = BucketId { model: full, ..k };
                assert(BucketId { model: bare, ..moved } =~= k);
                assert(v.claude.buckets.dom().contains(moved));
            } else {
                assert(v.claude.buckets.dom().contains(k));
            }
        }
        if all_labelled(u) {
            assert forall|k: BucketId| #[trigger]
                v.claude.buckets.dom().contains(k) implies is_labelled(k) by {
                if !(u.claude.buckets.dom().contains(k) && k.model != bare) {
                    assert(u.claude.buckets.dom().contains(BucketId { model: bare, ..k }));
                }
            }
        }
    }
}

proof fn lemma_settle_keeps_names(a: AgentView, pending: Seq<PendingView>, s: SessionView)
    ensures
        ({
            let (b, kept) = super::model::settle(a, pending, s);
            &&& buckets_labelled(a.buckets) && pending_labelled(pending) ==> buckets_labelled(
                b.buckets,
            ) && pending_labelled(kept)
            &&& is_heard_of(a) ==> is_heard_of(b)
            &&& pending.len() == 0 ==> b == a
            &&& kept.len() <= pending.len()
        }),
    decreases pending.len(),
{
    if pending.len() > 0 {
        let front = pending.drop_last();
        lemma_settle_keeps_names(a, front, s);
        let (b, kept) = super::model::settle(a, front, s);
        let left = super::model::settle(a, pending, s).1;
        let p = pending.last();
        let to = super::model::settled_bucket(p.bucket, s);
        lemma_moved(b, p.bucket, to, p.stats);
        super::laws::lemma_pending_position(kept, to, p.conversation_id, 0);
        if buckets_labelled(a.buckets) && pending_labelled(pending) {
            assert(pending_labelled(front)) by {
                assert forall|i: int| 0 <= i < front.len() implies is_labelled(
                    (#[trigger] front[i]).bucket,
                ) by {
                    assert(is_labelled(pending[i].bucket));
                }
            }
            assert(is_labelled(p.bucket));
            reveal_strlit("unknown");
            assert(is_labelled(to));
            lemma_pending_plus(kept, to, p.conversation_id, p.stats);
            if !super::model::concerns(p, s) {
                assert forall|i: int| 0 <= i < left.len() implies is_labelled(
                    (#[trigger] left[i]).bucket,
                ) by {
                    if i < kept.len() {
                        assert(is_labelled(kept[i].bucket));
                    }
                }
            }
        }
    }
}

/// What becomes known of a conversation leaves buckets with names, and Codex
/// unheard of where it was.
pub proof fn lemma_attributing_keeps_names(u: UsageView, noted: UsageView, s: SessionView)
    requires
        noted.claude == u.claude,
        noted.codex == u.codex,
        noted.pending == u.pending,
    ensures
        keeps_names(u, super::model::attributed(noted, s)),
        pending_is_counted(u) && is_heard_of(super::model::attributed(noted, s).codex)
            ==> is_heard_of(u.codex),
{
    if s.conversation_id.len() == 0 {
        let from = super::stats::bucket_of(s.provider, s.model, "unknown"@);
        let to = super::stats::bucket_of(s.provider, s.model, s.effort);
        let movable = super::model::stats_at(u.codex.buckets, from).minus(
            super::model::pending_total(u.pending, from),
        );
        lemma_bucket_is_labelled(s.provider, s.model, s.effort);
        lemma_moved(u.codex, from, to, movable);
        assert(u.codex.buckets.dom().contains(from) ==> is_heard_of(u.codex));
    } else if s.model.len() > 0 {
        lemma_settle_keeps_names(u.codex, u.pending, s);
    }
}

/// A counter, summed over buckets as they are published.
pub open spec fn published_sum(m: Map<Seq<char>, (BucketId, ModelStats)>, c: Counter) -> nat
    decreases m.dom().len(),
{
    if m.dom().finite() && m.dom().len() > 0 {
        let k = m.dom().choose();
        c.of(m[k].1) + published_sum(m.remove(k), c)
    } else {
        0
    }
}

proof fn lemma_published_remove(
    m: Map<Seq<char>, (BucketId, ModelStats)>,
    k: Seq<char>,
    c: Counter,
)
    requires
        m.dom().finite(),
        m.dom().contains(k),
    ensures
        published_sum(m, c) == c.of(m[k].1) + published_sum(m.remove(k), c),
    decreases m.dom().len(),
{
    let x = m.dom().choose();
    assert(m.dom().contains(x));
    if x != k {
        assert(m.remove(x).remove(k) =~= m.remove(k).remove(x));
        lemma_published_remove(m.remove(x), k, c);
        lemma_published_remove(m.remove(k), x, c);
    }
}

/// A bucket is published under its own key.
proof fn lemma_published(m: Map<BucketId, ModelStats>, b: BucketId)
    requires
        m.dom().contains(b),
    ensures
        super::published(m).dom().contains(super::stats::bucket_key(b)),
        super::published(m)[super::stats::bucket_key(b)] == (b, m[b]),
{
    let k = super::stats::bucket_key(b);
    let x = choose|x: BucketId| m.dom().contains(x) && super::stats::bucket_key(x) == k;
    assert(m.dom().contains(x) && super::stats::bucket_key(x) == k);
    super::stats::law_bucket_keys_are_distinct(x, b);
}

proof fn lemma_published_sum(m: Map<BucketId, ModelStats>, c: Counter)
    requires
        m.dom().finite(),
    ensures
        super::published(m).dom().finite(),
        published_sum(super::published(m), c) == super::conservation::bucket_sum(m, c),
    decreases m.dom().len(),
{
    let p = super::published(m);
    if m.dom().len() == 0 {
        assert(p =~= Map::<Seq<char>, (BucketId, ModelStats)>::empty());
    } else {
        let b = m.dom().choose();
        assert(m.dom().contains(b));
        let k = super::stats::bucket_key(b);
        let rest = super::published(m.remove(b));
        lemma_published_sum(m.remove(b), c);
        lemma_published(m, b);
        assert forall|x: Seq<char>| p.remove(k).dom().contains(x) == rest.dom().contains(x) by {
            if p.remove(k).dom().contains(x) {
                let y = choose|y: BucketId| m.dom().contains(y) && super::stats::bucket_key(y) == x;
                assert(m.remove(b).dom().contains(y));
            }
            if rest.dom().contains(x) {
                let y = choose|y: BucketId|
                    m.remove(b).dom().contains(y) && super::stats::bucket_key(y) == x;
                assert(m.dom().contains(y));
                if x == k {
                    super::stats::law_bucket_keys_are_distinct(y, b);
                }
            }
        }
        assert forall|x: Seq<char>| rest.dom().contains(x) implies p.remove(k)[x] == rest[x] by {
            let y = choose|y: BucketId|
                m.remove(b).dom().contains(y) && super::stats::bucket_key(y) == x;
            lemma_published(m, y);
            lemma_published(m.remove(b), y);
        }
        assert(p.remove(k) =~= rest);
        assert(p =~= rest.insert(k, p[k]));
        lemma_published_remove(p, k, c);
        super::conservation::lemma_sum_remove(m, b, c);
    }
}

/// What is published adds up: where the counters of both agents are in balance,
/// the buckets of each agent in a snapshot sum to its total. And each bucket
/// stands under the key that is made of its own provider, model and effort, none
/// of which is empty.
pub proof fn law_published_buckets_add_up(
    u: UsageView,
    c: Counter,
    names: spec_fn(Seq<char>) -> Seq<char>,
)
    requires
        super::conservation::balanced(u, c),
        super::balance::claude_balanced(u, c, names),
        all_labelled(u),
    ensures
        forall|agent: Seq<char>| #[trigger]
            super::published_agents(u).dom().contains(agent) ==> published_sum(
                super::published_agents(u)[agent].buckets,
                c,
            ) == c.of(super::published_agents(u)[agent].total),
        forall|agent: Seq<char>, key: Seq<char>|
            super::published_agents(u).dom().contains(agent)
                && #[trigger] super::published_agents(u)[agent].buckets.dom().contains(key) ==> {
                let b = super::published_agents(u)[agent].buckets[key].0;
                super::stats::bucket_key(b) == key && is_labelled(b)
            },
{
    lemma_published_sum(u.codex.buckets, c);
    lemma_published_sum(u.claude.buckets, c);
    let agents = super::published_agents(u);
    assert forall|agent: Seq<char>, key: Seq<char>|
        agents.dom().contains(agent)
            && #[trigger] agents[agent].buckets.dom().contains(key) implies super::stats::bucket_key(
        agents[agent].buckets[key].0,
    ) == key && is_labelled(agents[agent].buckets[key].0) by {
        let m = if agents[agent].buckets == super::published(u.codex.buckets) {
            u.codex.buckets
        } else {
            u.claude.buckets
        };
        assert(agents[agent].buckets == super::published(m));
        let b = choose|b: BucketId| m.dom().contains(b) && super::stats::bucket_key(b) == key;
        lemma_published(m, b);
    }
}

/// Buckets always have names, and Codex was heard of where any of its usage is
/// pending: both hold at the start, and batches of log records, spans and metrics
/// keep it so.
pub proof fn law_buckets_have_names(
    u: UsageView,
    logs: Seq<ResourceLogs>,
    spans: Seq<ResourceSpans>,
    metrics: Seq<ResourceMetrics>,
    now: int,
)
    ensures
        all_labelled(super::model::empty_usage()),
        pending_is_counted(super::model::empty_usage()),
        keeps_names(u, super::model::logs_taken(u, logs, now).usage),
        keeps_names(u, super::model::traces_taken(u, spans).usage),
        keeps_names(u, super::model::metrics_taken(u, metrics, now).usage),
{
    super::laws::law_logs_keep(u, logs, now);
    super::laws::law_spans_count_nothing(u, spans);
    super::laws::law_metrics_keep(u, metrics, now);
}

/// Spans publish no usage: the same agents are published after them, with the same
/// totals and, but for Codex, the same buckets.
pub proof fn law_spans_publish_no_usage(u: UsageView, spans: Seq<ResourceSpans>)
    requires
        pending_is_counted(u),
    ensures
        ({
            let before = super::published_agents(u);
            let after = super::published_agents(super::model::traces_taken(u, spans).usage);
            &&& after.dom() == before.dom()
            &&& forall|agent: Seq<char>| #[trigger]
                before.dom().contains(agent) ==> after[agent].total == before[agent].total && (agent
                    != "codex"@ ==> after[agent] == before[agent])
        }),
{
    let v = super::model::traces_taken(u, spans).usage;
    super::laws::law_spans_count_nothing(u, spans);
    lemma_heard_of(u.codex);
    lemma_heard_of(v.codex);
    assert(super::published_agents(v).dom() =~= super::published_agents(u).dom());
}

proof fn lemma_heard_of(a: AgentView)
    ensures
        is_heard_of(a) <==> !(a.buckets =~= Map::<BucketId, ModelStats>::empty()),
{
    if !is_heard_of(a) {
        assert forall|b: BucketId| !#[trigger] a.buckets.dom().contains(b) by {}
        assert(a.buckets =~= Map::<BucketId, ModelStats>::empty());
    }
}

} // verus!
