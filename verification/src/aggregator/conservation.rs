//! Usage is neither lost nor invented: the buckets of Codex add up to its
//! total, whatever moves between them.

use super::model::{AgentView, PendingView, SessionView, UsageView};
use super::stats::{BucketId, ModelStats};
use crate::otlp::{ResourceLogs, ResourceMetrics, ResourceSpans};
use vstd::prelude::*;

verus! {

/// One of the counters.
pub enum Counter {
    Requests,
    Input,
    Output,
    CacheRead,
    CacheCreation,
    Reasoning,
    Cost,
    Duration,
}

impl Counter {
    /// What the counter stands at.
    pub open spec fn of(self, s: ModelStats) -> nat {
        match self {
            Counter::Requests => s.request_count as nat,
            Counter::Input => s.input_tokens as nat,
            Counter::Output => s.output_tokens as nat,
            Counter::CacheRead => s.cache_read_tokens as nat,
            Counter::CacheCreation => s.cache_creation_tokens as nat,
            Counter::Reasoning => s.reasoning_output_tokens as nat,
            Counter::Cost => s.cost_usd.units as nat,
            Counter::Duration => s.duration_ms as nat,
        }
    }

    /// The largest value of the counter.
    pub open spec fn limit(self) -> nat {
        if self is Cost {
            u128::MAX as nat
        } else {
            u64::MAX as nat
        }
    }
}

/// A counter, summed over all buckets.
pub open spec fn bucket_sum(m: Map<BucketId, ModelStats>, c: Counter) -> nat
    decreases m.dom().len(),
{
    if m.dom().finite() && m.dom().len() > 0 {
        let k = m.dom().choose();
        c.of(m[k]) + bucket_sum(m.remove(k), c)
    } else {
        0
    }
}

/// The buckets of one model.
pub open spec fn of_model(m: Map<BucketId, ModelStats>, model: Seq<char>) -> Map<
    BucketId,
    ModelStats,
> {
    m.restrict(Set::new(|k: BucketId| k.model == model))
}

/// A counter, summed over the buckets of one model.
pub open spec fn model_sum(m: Map<BucketId, ModelStats>, model: Seq<char>, c: Counter) -> nat {
    bucket_sum(of_model(m, model), c)
}

/// A counter, summed over what is pending for a bucket.
pub open spec fn pending_sum(pending: Seq<PendingView>, b: BucketId, c: Counter) -> nat
    decreases pending.len(),
{
    if pending.len() == 0 {
        0
    } else {
        pending_sum(pending.drop_last(), b, c) + (if pending.last().bucket == b {
            c.of(pending.last().stats)
        } else {
            0
        })
    }
}

/// Whether a counter of Codex is in balance: its buckets add up to the total,
/// and no bucket holds less than is pending for it.
pub open spec fn balanced(u: UsageView, c: Counter) -> bool {
    &&& u.codex.buckets.dom().finite()
    &&& bucket_sum(u.codex.buckets, c) == c.of(u.codex.total)
    &&& forall|b: BucketId| #[trigger]
        pending_sum(u.pending, b, c) <= c.of(super::model::stats_at(u.codex.buckets, b))
}

/// Whether a step kept every counter in balance whose total stayed below the
/// limit.
pub open spec fn keeps_balance(u: UsageView, v: UsageView) -> bool {
    forall|c: Counter| #[trigger]
        balanced(u, c) && c.of(v.codex.total) < c.limit() ==> balanced(v, c)
}

/// Whether a step moved usage of Codex between buckets of one model at most,
/// as far as counters are in balance and below the limit.
pub open spec fn keeps_model_sums(u: UsageView, v: UsageView) -> bool {
    forall|c: Counter, model: Seq<char>|
        balanced(u, c) && c.of(u.codex.total) < c.limit() ==> #[trigger] model_sum(
            v.codex.buckets,
            model,
            c,
        ) == model_sum(u.codex.buckets, model, c)
}

/// A sum over buckets, without one of them.
pub proof fn lemma_sum_remove(m: Map<BucketId, ModelStats>, k: BucketId, c: Counter)
    requires
        m.dom().finite(),
        m.dom().contains(k),
    ensures
        bucket_sum(m, c) == c.of(m[k]) + bucket_sum(m.remove(k), c),
    decreases m.dom().len(),
{
    let x = m.dom().choose();
    assert(m.dom().contains(x));
    if x != k {
        assert(m.remove(x).remove(k) =~= m.remove(k).remove(x));
        lemma_sum_remove(m.remove(x), k, c);
        lemma_sum_remove(m.remove(k), x, c);
    }
}

/// A sum over buckets, with one of them set.
pub proof fn lemma_sum_insert(m: Map<BucketId, ModelStats>, k: BucketId, v: ModelStats, c: Counter)
    requires
        m.dom().finite(),
    ensures
        bucket_sum(m.insert(k, v), c) + c.of(super::model::stats_at(m, k)) == bucket_sum(m, c)
            + c.of(v),
{
    lemma_sum_remove(m.insert(k, v), k, c);
    if m.dom().contains(k) {
        lemma_sum_remove(m, k, c);
        assert(m.insert(k, v).remove(k) =~= m.remove(k));
    } else {
        assert(m.insert(k, v).remove(k) =~= m);
    }
}

/// No bucket holds more than all together.
pub proof fn lemma_within_sum(m: Map<BucketId, ModelStats>, k: BucketId, c: Counter)
    requires
        m.dom().finite(),
    ensures
        c.of(super::model::stats_at(m, k)) <= bucket_sum(m, c),
{
    if m.dom().contains(k) {
        lemma_sum_remove(m, k, c);
    }
}

/// A sample that does not bring the total to its limit keeps the balance.
proof fn lemma_recorded_keeps_balance(u: UsageView, b: BucketId, s: ModelStats, now: int)
    ensures
        keeps_balance(u, super::model::codex_recorded(u, b, s, now)),
        forall|c: Counter, k: BucketId| #[trigger]
            balanced(u, c) && c.of(u.codex.total.plus(s)) < c.limit() ==> c.of(
                #[trigger] super::model::stats_at(super::model::recorded(u.codex, b, s).buckets, k),
            ) == c.of(super::model::stats_at(u.codex.buckets, k)) + (if k == b {
                c.of(s)
            } else {
                0
            }),
{
    let v = super::model::codex_recorded(u, b, s, now);
    assert forall|c: Counter| #[trigger]
        balanced(u, c) && c.of(v.codex.total) < c.limit() implies balanced(v, c) by {
        lemma_within_sum(u.codex.buckets, b, c);
        lemma_sum_insert(u.codex.buckets, b, super::model::stats_at(u.codex.buckets, b).plus(s), c);
        assert forall|k: BucketId| #[trigger] pending_sum(v.pending, k, c) <= c.of(
            super::model::stats_at(v.codex.buckets, k),
        ) by {
            assert(pending_sum(u.pending, k, c) <= c.of(
                super::model::stats_at(u.codex.buckets, k),
            ));
        }
    }
    assert forall|c: Counter, k: BucketId| #[trigger]
        balanced(u, c) && c.of(u.codex.total.plus(s)) < c.limit() implies c.of(
        #[trigger] super::model::stats_at(v.codex.buckets, k),
    ) == c.of(super::model::stats_at(u.codex.buckets, k)) + (if k == b {
        c.of(s)
    } else {
        0
    }) by {
        lemma_within_sum(u.codex.buckets, b, c);
    }
}

/// Moving what a bucket holds changes no sum.
proof fn lemma_moved_keeps_sum(
    a: AgentView,
    from: BucketId,
    to: BucketId,
    s: ModelStats,
    c: Counter,
)
    requires
        a.buckets.dom().finite(),
        from != to,
        c.of(s) <= c.of(super::model::stats_at(a.buckets, from)),
        bucket_sum(a.buckets, c) <= c.limit(),
    ensures
        ({
            let b = super::model::moved(a, from, to, s).buckets;
            &&& b.dom().finite()
            &&& bucket_sum(b, c) == bucket_sum(a.buckets, c)
            &&& forall|k: BucketId|
                c.of(#[trigger] super::model::stats_at(b, k)) == c.of(
                    super::model::stats_at(a.buckets, k),
                ) + (if k == to {
                    c.of(s) as int
                } else if k == from {
                    -c.of(s)
                } else {
                    0
                })
        }),
{
    let m = a.buckets;
    let left = m[from].minus(s);
    let rest = if !m.dom().contains(from) {
        m
    } else if left == super::stats::no_stats() {
        m.remove(from)
    } else {
        m.insert(from, left)
    };
    if m.dom().contains(from) {
        lemma_sum_remove(m, from, c);
        lemma_sum_insert(m, from, left, c);
    }
    assert(bucket_sum(rest, c) + c.of(s) == bucket_sum(m, c));
    lemma_within_sum(rest, to, c);
    lemma_sum_insert(rest, to, super::model::stats_at(rest, to).plus(s), c);
    super::laws::law_moving_conserves(a, from, to, s);
}

/// The buckets of one model hold no more than all.
proof fn lemma_model_sum_within(m: Map<BucketId, ModelStats>, model: Seq<char>, c: Counter)
    requires
        m.dom().finite(),
    ensures
        of_model(m, model).dom().finite(),
        model_sum(m, model, c) <= bucket_sum(m, c),
    decreases m.dom().len(),
{
    let part = of_model(m, model);
    assert(part.dom() =~= m.dom().intersect(Set::new(|k: BucketId| k.model == model)));
    if m.dom().len() == 0 {
        assert(part =~= m);
    } else {
        let k = m.dom().choose();
        assert(m.dom().contains(k));
        lemma_model_sum_within(m.remove(k), model, c);
        if k.model == model {
            assert(part.remove(k) =~= of_model(m.remove(k), model));
            lemma_sum_remove(part, k, c);
        } else {
            assert(part =~= of_model(m.remove(k), model));
        }
    }
}

/// Moving what a bucket holds to another of the same model changes no sum of a
/// model.
proof fn lemma_moved_keeps_model_sum(
    a: AgentView,
    from: BucketId,
    to: BucketId,
    s: ModelStats,
    c: Counter,
    model: Seq<char>,
)
    requires
        a.buckets.dom().finite(),
        from != to,
        from.model == to.model,
        c.of(s) <= c.of(super::model::stats_at(a.buckets, from)),
        bucket_sum(a.buckets, c) <= c.limit(),
    ensures
        model_sum(super::model::moved(a, from, to, s).buckets, model, c) == model_sum(
            a.buckets,
            model,
            c,
        ),
{
    let after = super::model::moved(a, from, to, s).buckets;
    if model == from.model {
        let part = AgentView { buckets: of_model(a.buckets, model), ..a };
        lemma_model_sum_within(a.buckets, model, c);
        lemma_moved_keeps_sum(part, from, to, s, c);
        assert(super::model::moved(part, from, to, s).buckets =~= of_model(after, model));
    } else {
        assert(of_model(after, model) =~= of_model(a.buckets, model));
    }
}

proof fn lemma_update_sum(
    pending: Seq<PendingView>,
    i: int,
    p: PendingView,
    k: BucketId,
    c: Counter,
)
    requires
        0 <= i < pending.len(),
        p.bucket == pending[i].bucket,
    ensures
        pending_sum(pending.update(i, p), k, c) + (if k == p.bucket {
            c.of(pending[i].stats)
        } else {
            0
        }) == pending_sum(pending, k, c) + (if k == p.bucket {
            c.of(p.stats)
        } else {
            0
        }),
    decreases pending.len(),
{
    if i == pending.len() - 1 {
        assert(pending.update(i, p).drop_last() =~= pending.drop_last());
    } else {
        assert(pending.update(i, p).drop_last() =~= pending.drop_last().update(i, p));
        lemma_update_sum(pending.drop_last(), i, p, k, c);
    }
}

proof fn lemma_within_pending_sum(pending: Seq<PendingView>, i: int, c: Counter)
    requires
        0 <= i < pending.len(),
    ensures
        c.of(pending[i].stats) <= pending_sum(pending, pending[i].bucket, c),
    decreases pending.len(),
{
    if i < pending.len() - 1 {
        lemma_within_pending_sum(pending.drop_last(), i, c);
    }
}

/// What becomes pending adds to the sum of its bucket.
proof fn lemma_pending_plus_sum(
    pending: Seq<PendingView>,
    b: BucketId,
    id: Seq<char>,
    s: ModelStats,
    k: BucketId,
    c: Counter,
)
    requires
        pending_sum(pending, b, c) + c.of(s) <= c.limit(),
    ensures
        pending_sum(super::model::pending_plus(pending, b, id, s), k, c) == pending_sum(
            pending,
            k,
            c,
        ) + (if k == b {
            c.of(s)
        } else {
            0
        }),
{
    let i = super::model::pending_position(pending, b, id, 0);
    super::laws::lemma_pending_position(pending, b, id, 0);
    if i < pending.len() {
        lemma_within_pending_sum(pending, i, c);
        lemma_update_sum(
            pending,
            i,
            PendingView { stats: pending[i].stats.plus(s), ..pending[i] },
            k,
            c,
        );
    } else {
        let p = PendingView { bucket: b, conversation_id: id, stats: s };
        assert(pending.push(p).drop_last() =~= pending);
    }
}

/// Settling pending usage changes no sum, and leaves each bucket with what is
/// still pending for it and with what it was to hold besides.
proof fn lemma_settle_keeps_sum(
    a: AgentView,
    pending: Seq<PendingView>,
    s: SessionView,
    c: Counter,
    besides: spec_fn(BucketId) -> nat,
)
    requires
        a.buckets.dom().finite(),
        bucket_sum(a.buckets, c) <= c.limit(),
        forall|b: BucketId| #[trigger]
            pending_sum(pending, b, c) + besides(b) <= c.of(super::model::stats_at(a.buckets, b)),
    ensures
        ({
            let (v, kept) = super::model::settle(a, pending, s);
            &&& v.buckets.dom().finite()
            &&& bucket_sum(v.buckets, c) == bucket_sum(a.buckets, c)
            &&& forall|model: Seq<char>| #[trigger]
                model_sum(v.buckets, model, c) == model_sum(a.buckets, model, c)
            &&& forall|b: BucketId| #[trigger]
                pending_sum(kept, b, c) + besides(b) <= c.of(super::model::stats_at(v.buckets, b))
        }),
    decreases pending.len(),
{
    if pending.len() == 0 {
        assert forall|b: BucketId| #[trigger]
            pending_sum(Seq::<PendingView>::empty(), b, c) + besides(b) <= c.of(
            super::model::stats_at(a.buckets, b),
        ) by {
            assert(pending_sum(pending, b, c) + besides(b) <= c.of(
                super::model::stats_at(a.buckets, b),
            ));
        }
    } else {
        let front = pending.drop_last();
        let p = pending.last();
        let more = |b: BucketId| -> nat
            {
                besides(b) + (if p.bucket == b {
                    c.of(p.stats)
                } else {
                    0
                })
            };
        assert forall|b: BucketId| #[trigger] pending_sum(front, b, c) + more(b) <= c.of(
            super::model::stats_at(a.buckets, b),
        ) by {
            assert(pending_sum(pending, b, c) + besides(b) <= c.of(
                super::model::stats_at(a.buckets, b),
            ));
        }
        lemma_settle_keeps_sum(a, front, s, c, more);
        let (v, kept) = super::model::settle(a, front, s);
        let (w, left) = super::model::settle(a, pending, s);
        let to = super::model::settled_bucket(p.bucket, s);
        assert(pending_sum(kept, p.bucket, c) + more(p.bucket) <= c.of(
            super::model::stats_at(v.buckets, p.bucket),
        ));
        if super::model::concerns(p, s) {
            if to != p.bucket {
                lemma_moved_keeps_sum(v, p.bucket, to, p.stats, c);
                assert forall|model: Seq<char>| #[trigger]
                    model_sum(w.buckets, model, c) == model_sum(v.buckets, model, c) by {
                    lemma_moved_keeps_model_sum(v, p.bucket, to, p.stats, c, model);
                }
            }
            assert(pending_sum(kept, to, c) + more(to) <= c.of(
                super::model::stats_at(v.buckets, to),
            ));
            lemma_within_sum(w.buckets, to, c);
            assert forall|b: BucketId| #[trigger] pending_sum(left, b, c) + besides(b) <= c.of(
                super::model::stats_at(w.buckets, b),
            ) by {
                assert(pending_sum(kept, b, c) + more(b) <= c.of(
                    super::model::stats_at(v.buckets, b),
                ));
                if !super::model::is_settled(to, s) {
                    lemma_pending_plus_sum(kept, to, p.conversation_id, p.stats, b, c);
                }
            }
        } else {
            assert(kept.push(p).drop_last() =~= kept);
            assert forall|b: BucketId| #[trigger] pending_sum(left, b, c) + besides(b) <= c.of(
                super::model::stats_at(w.buckets, b),
            ) by {
                assert(pending_sum(kept, b, c) + more(b) <= c.of(
                    super::model::stats_at(v.buckets, b),
                ));
            }
        }
    }
}

proof fn lemma_pending_total(pending: Seq<PendingView>, b: BucketId, c: Counter)
    ensures
        pending_sum(pending, b, c) <= c.limit() ==> c.of(super::model::pending_total(pending, b))
            == pending_sum(pending, b, c),
    decreases pending.len(),
{
    if pending.len() > 0 {
        lemma_pending_total(pending.drop_last(), b, c);
    }
}

proof fn lemma_adopting_keeps_balance(u: UsageView, s: SessionView)
    ensures
        keeps_balance(u, super::model::adopt_unknown(u, s)),
        keeps_model_sums(u, super::model::adopt_unknown(u, s)),
{
    let v = super::model::adopt_unknown(u, s);
    let from = super::stats::bucket_of(s.provider, s.model, "unknown"@);
    let to = super::stats::bucket_of(s.provider, s.model, s.effort);
    let movable = super::model::stats_at(u.codex.buckets, from).minus(
        super::model::pending_total(u.pending, from),
    );
    assert forall|c: Counter| #[trigger]
        balanced(u, c) && c.of(v.codex.total) < c.limit() implies balanced(v, c) && forall|
        model: Seq<char>,
    | #[trigger]
        model_sum(v.codex.buckets, model, c) == model_sum(u.codex.buckets, model, c) by {
        if v != u {
            assert(from.effort == "unknown"@);
            assert(to.effort == s.effort);
            lemma_pending_total(u.pending, from, c);
            assert(pending_sum(u.pending, from, c) <= c.of(
                super::model::stats_at(u.codex.buckets, from),
            ));
            lemma_within_sum(u.codex.buckets, from, c);
            lemma_moved_keeps_sum(u.codex, from, to, movable, c);
            assert forall|b: BucketId| #[trigger] pending_sum(v.pending, b, c) <= c.of(
                super::model::stats_at(v.codex.buckets, b),
            ) by {
                assert(pending_sum(u.pending, b, c) <= c.of(
                    super::model::stats_at(u.codex.buckets, b),
                ));
            }
            assert forall|model: Seq<char>| #[trigger]
                model_sum(v.codex.buckets, model, c) == model_sum(u.codex.buckets, model, c) by {
                lemma_moved_keeps_model_sum(u.codex, from, to, movable, c, model);
            }
        }
    }
}

/// What becomes known of a conversation keeps the balance and the sums of each
/// model, whatever is noted beside it.
pub proof fn lemma_attributing_keeps_balance(u: UsageView, noted: UsageView, s: SessionView)
    requires
        noted.codex == u.codex,
        noted.pending == u.pending,
    ensures
        keeps_balance(u, super::model::attributed(noted, s)),
        keeps_model_sums(u, super::model::attributed(noted, s)),
{
    let v = super::model::attributed(noted, s);
    if s.conversation_id.len() == 0 {
        lemma_adopting_keeps_balance(noted, s);
        assert forall|c: Counter| #[trigger]
            balanced(u, c) && c.of(v.codex.total) < c.limit() implies balanced(v, c) && forall|
            model: Seq<char>,
        | #[trigger]
            model_sum(v.codex.buckets, model, c) == model_sum(u.codex.buckets, model, c) by {
            lemma_same_balance(u, noted, c);
        }
    } else if s.model.len() > 0 {
        super::laws::law_settling_keeps_the_total(u.codex, u.pending, s);
        assert forall|c: Counter| #[trigger]
            balanced(u, c) && c.of(v.codex.total) < c.limit() implies balanced(v, c) && forall|
            model: Seq<char>,
        | #[trigger]
            model_sum(v.codex.buckets, model, c) == model_sum(u.codex.buckets, model, c) by {
            let nothing = |b: BucketId| -> nat { 0 };
            assert forall|b: BucketId| #[trigger]
                pending_sum(u.pending, b, c) + nothing(b) <= c.of(
                super::model::stats_at(u.codex.buckets, b),
            ) by {
                assert(pending_sum(u.pending, b, c) <= c.of(
                    super::model::stats_at(u.codex.buckets, b),
                ));
            }
            lemma_settle_keeps_sum(u.codex, u.pending, s, c, nothing);
            assert forall|b: BucketId| #[trigger] pending_sum(v.pending, b, c) <= c.of(
                super::model::stats_at(v.codex.buckets, b),
            ) by {
                assert(pending_sum(v.pending, b, c) + nothing(b) <= c.of(
                    super::model::stats_at(v.codex.buckets, b),
                ));
            }
        }
    } else {
        lemma_untouched_keeps_balance(u, v);
    }
}

/// The balance depends on the totals of Codex and on what is pending.
proof fn lemma_same_balance(u: UsageView, v: UsageView, c: Counter)
    requires
        v.codex == u.codex,
        v.pending == u.pending,
        balanced(u, c),
    ensures
        balanced(v, c),
{
    assert forall|b: BucketId| #[trigger] pending_sum(v.pending, b, c) <= c.of(
        super::model::stats_at(v.codex.buckets, b),
    ) by {
        assert(pending_sum(u.pending, b, c) <= c.of(super::model::stats_at(u.codex.buckets, b)));
    }
}

/// What touches neither the totals of Codex nor what is pending keeps the
/// balance.
pub proof fn lemma_untouched_keeps_balance(u: UsageView, v: UsageView)
    requires
        v.codex == u.codex,
        v.pending == u.pending,
    ensures
        keeps_balance(u, v),
{
    assert forall|c: Counter| #[trigger]
        balanced(u, c) && c.of(v.codex.total) < c.limit() implies balanced(v, c) by {
        lemma_same_balance(u, v, c);
    }
}

/// A sample keeps the balance, also where it becomes pending for its bucket and
/// where other things are noted beside it.
pub proof fn lemma_sample_keeps_balance(
    u: UsageView,
    v: UsageView,
    b: BucketId,
    id: Seq<char>,
    s: ModelStats,
    now: int,
)
    requires
        v.codex == super::model::recorded(u.codex, b, s),
        v.pending == u.pending || v.pending == super::model::pending_plus(u.pending, b, id, s),
    ensures
        keeps_balance(u, v),
{
    let w = super::model::codex_recorded(u, b, s, now);
    lemma_recorded_keeps_balance(u, b, s, now);
    assert forall|c: Counter| #[trigger]
        balanced(u, c) && c.of(v.codex.total) < c.limit() implies balanced(v, c) by {
        assert(balanced(w, c));
        if v.pending == u.pending {
            lemma_same_balance(w, v, c);
        } else {
            lemma_within_sum(w.codex.buckets, b, c);
            assert(pending_sum(u.pending, b, c) <= c.of(
                super::model::stats_at(u.codex.buckets, b),
            ));
            assert forall|k: BucketId| #[trigger] pending_sum(v.pending, k, c) <= c.of(
                super::model::stats_at(v.codex.buckets, k),
            ) by {
                assert(pending_sum(u.pending, k, c) <= c.of(
                    super::model::stats_at(u.codex.buckets, k),
                ));
                assert(c.of(super::model::stats_at(w.codex.buckets, b)) == c.of(
                    super::model::stats_at(u.codex.buckets, b),
                ) + c.of(s));
                lemma_pending_plus_sum(u.pending, b, id, s, k, c);
            }
        }
    }
}

/// The buckets of Codex add up to its total: they do at the start, and batches of
/// log records, spans and metrics keep it so as long as the total stays below
/// the limit of the counter.
pub proof fn law_codex_buckets_add_up(
    u: UsageView,
    logs: Seq<ResourceLogs>,
    spans: Seq<ResourceSpans>,
    metrics: Seq<ResourceMetrics>,
    now: int,
    c: Counter,
)
    ensures
        balanced(super::model::empty_usage(), c),
        ({
            let v = super::model::logs_taken(u, logs, now).usage;
            balanced(u, c) && c.of(v.codex.total) < c.limit() ==> balanced(v, c)
        }),
        ({
            let v = super::model::traces_taken(u, spans).usage;
            balanced(u, c) && c.of(v.codex.total) < c.limit() ==> balanced(v, c)
        }),
        ({
            let v = super::model::metrics_taken(u, metrics, now).usage;
            balanced(u, c) && c.of(v.codex.total) < c.limit() ==> balanced(v, c)
        }),
{
    super::laws::law_logs_keep(u, logs, now);
    super::laws::law_spans_count_nothing(u, spans);
    super::laws::law_metrics_keep(u, metrics, now);
}

/// The counters that arrive in a bucket once a conversation becomes known.
pub open spec fn moved_into(pending: Seq<PendingView>, s: SessionView, k: BucketId) -> ModelStats
    decreases pending.len(),
{
    if pending.len() == 0 {
        super::stats::no_stats()
    } else {
        let before = moved_into(pending.drop_last(), s, k);
        let p = pending.last();
        if super::model::concerns(p, s) && p.bucket != k && super::model::settled_bucket(
            p.bucket,
            s,
        ) == k {
            before.plus(p.stats)
        } else {
            before
        }
    }
}

/// The counters that leave a bucket once a conversation becomes known.
pub open spec fn moved_out_of(pending: Seq<PendingView>, s: SessionView, k: BucketId) -> ModelStats
    decreases pending.len(),
{
    if pending.len() == 0 {
        super::stats::no_stats()
    } else {
        let before = moved_out_of(pending.drop_last(), s, k);
        let p = pending.last();
        if super::model::concerns(p, s) && p.bucket == k {
            before.plus(p.stats)
        } else {
            before
        }
    }
}

proof fn lemma_settle_moves(a: AgentView, pending: Seq<PendingView>, s: SessionView, k: BucketId)
    ensures
        ({
            let before = super::model::stats_at(a.buckets, k);
            let after = super::model::stats_at(super::model::settle(a, pending, s).0.buckets, k);
            if super::model::settled_bucket(k, s) == k {
                after == before.plus(moved_into(pending, s, k))
            } else {
                after == before.minus(moved_out_of(pending, s, k))
            }
        }),
    decreases pending.len(),
{
    if pending.len() > 0 {
        lemma_settle_moves(a, pending.drop_last(), s, k);
        let v = super::model::settle(a, pending.drop_last(), s).0;
        let p = pending.last();
        let to = super::model::settled_bucket(p.bucket, s);
        assert(super::model::settled_bucket(to, s) == to);
        if super::model::concerns(p, s) && to != p.bucket {
            super::laws::law_moving_conserves(v, p.bucket, to, p.stats);
        }
    }
}

proof fn lemma_settle_leaves_nothing(a: AgentView, pending: Seq<PendingView>, s: SessionView)
    requires
        s.confirmed,
        super::stats::known(s.effort) != "unknown"@,
    ensures
        forall|i: int|
            0 <= i < super::model::settle(a, pending, s).1.len() ==> !super::model::concerns(
                #[trigger] super::model::settle(a, pending, s).1[i],
                s,
            ),
    decreases pending.len(),
{
    if pending.len() > 0 {
        lemma_settle_leaves_nothing(a, pending.drop_last(), s);
        let kept = super::model::settle(a, pending.drop_last(), s).1;
        let left = super::model::settle(a, pending, s).1;
        assert forall|i: int| 0 <= i < left.len() implies !super::model::concerns(
            #[trigger] left[i],
            s,
        ) by {
            if i < kept.len() {
                assert(left[i] == kept[i]);
            }
        }
    }
}

/// Usage that a conversation reported before it was known moves to where it
/// belongs: into the bucket of the provider that the conversation names, with the
/// effort of the completion where it had one and that of the conversation where
/// it had none. A bucket gains exactly what is settled into it, a bucket that is
/// not settled loses exactly what was pending for the conversation in it, and
/// where provider and effort are known, nothing of the conversation stays
/// pending.
pub proof fn law_late_conversation_takes_its_usage(
    u: UsageView,
    service: Seq<char>,
    s: SessionView,
    k: BucketId,
)
    requires
        s.conversation_id.len() > 0,
        s.model.len() > 0,
    ensures
        ({
            let v = super::model::session_known(u, service, s);
            let to = super::model::settled_bucket(k, s);
            let before = super::model::stats_at(u.codex.buckets, k);
            let after = super::model::stats_at(v.codex.buckets, k);
            &&& to.model == k.model
            &&& s.confirmed ==> to.provider == super::stats::known(s.provider)
            &&& k.effort != "unknown"@ ==> to.effort == k.effort
            &&& k.effort == "unknown"@ ==> to.effort == super::stats::known(s.effort)
            &&& to == k ==> after == before.plus(moved_into(u.pending, s, k))
            &&& to != k ==> after == before.minus(moved_out_of(u.pending, s, k))
            &&& s.confirmed && super::stats::known(s.effort) != "unknown"@ ==> forall|i: int|
                0 <= i < v.pending.len() ==> !super::model::concerns(#[trigger] v.pending[i], s)
        }),
{
    lemma_settle_moves(u.codex, u.pending, s, k);
    if s.confirmed && super::stats::known(s.effort) != "unknown"@ {
        lemma_settle_leaves_nothing(u.codex, u.pending, s);
    }
}

} // verus!
