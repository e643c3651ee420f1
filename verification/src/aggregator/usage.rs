//! The totals, and how samples are entered into them.

use super::model::{AgentView, PendingView, SessionView, Source, UsageView};
use super::stats::{non_empty, Bucket, BucketId, ModelStats};
use crate::table::{Key, Table};
use crate::text::{chars_of, copy_range, find_char, text_of};
use vstd::prelude::*;

verus! {

/// The totals of one agent.
pub struct Agent {
    pub total: ModelStats,
    pub buckets: Table<Bucket, ModelStats>,
}

impl View for Agent {
    type V = AgentView;

    open spec fn view(&self) -> AgentView {
        AgentView { total: self.total, buckets: self.buckets@ }
    }
}

impl Agent {
    pub open spec fn wf(&self) -> bool {
        self.buckets.wf()
    }

    pub fn new() -> (r: Agent)
        ensures
            r.wf(),
            r@ == super::model::empty_agent(),
    {
        Agent { total: ModelStats::default(), buckets: Table::new() }
    }

    /// Adds a sample.
    pub fn record(&mut self, bucket: &Bucket, stats: &ModelStats)
        requires
            old(self).wf(),
        ensures
            final(self).wf(),
            final(self)@ == super::model::recorded(old(self)@, bucket@, *stats),
    {
        self.total.add(stats);
        let mut entry = match self.buckets.get(bucket) {
            Some(s) => *s,
            None => ModelStats::default(),
        };
        entry.add(stats);
        self.buckets.insert(bucket.duplicate(), entry);
    }

    /// Takes a sample back.
    pub fn withdraw(&mut self, bucket: &Bucket, stats: &ModelStats)
        requires
            old(self).wf(),
        ensures
            final(self).wf(),
            final(self)@ == super::model::withdrawn(old(self)@, bucket@, *stats),
    {
        self.total.subtract(stats);
        let found = match self.buckets.get(bucket) {
            Some(s) => Some(*s),
            None => None,
        };
        if let Some(entry) = found {
            let mut left = entry;
            left.subtract(stats);
            self.buckets.insert(bucket.duplicate(), left);
        }
    }

    /// Moves counters from one bucket to another.
    pub fn shift(&mut self, from: &Bucket, to: &Bucket, stats: &ModelStats)
        requires
            old(self).wf(),
        ensures
            final(self).wf(),
            final(self)@ == super::model::moved(old(self)@, from@, to@, *stats),
    {
        let found = match self.buckets.get(from) {
            Some(s) => Some(*s),
            None => None,
        };
        if let Some(entry) = found {
            let left = entry.saturating_sub_stats(stats);
            if left.has_any_value() {
                self.buckets.insert(from.duplicate(), left);
            } else {
                let _ = self.buckets.remove(from);
            }
        }
        let mut entry = match self.buckets.get(to) {
            Some(s) => *s,
            None => ModelStats::default(),
        };
        entry.add(stats);
        self.buckets.insert(to.duplicate(), entry);
    }
}

/// What is known of a Codex conversation.
pub struct CodexSession {
    pub conversation_id: String,
    pub provider: String,
    pub confirmed: bool,
    pub model: String,
    pub effort: String,
}

impl View for CodexSession {
    type V = SessionView;

    open spec fn view(&self) -> SessionView {
        SessionView {
            conversation_id: self.conversation_id@,
            provider: self.provider@,
            confirmed: self.confirmed,
            model: self.model@,
            effort: self.effort@,
        }
    }
}

impl CodexSession {
    pub fn duplicate(&self) -> (r: CodexSession)
        ensures
            r@ == self@,
    {
        CodexSession {
            conversation_id: self.conversation_id.clone(),
            provider: self.provider.clone(),
            confirmed: self.confirmed,
            model: self.model.clone(),
            effort: self.effort.clone(),
        }
    }
}

/// An Anthropic model's bare name and an effort.
pub struct ClaudeKey {
    pub model: String,
    pub effort: String,
}

impl View for ClaudeKey {
    type V = (Seq<char>, Seq<char>);

    open spec fn view(&self) -> (Seq<char>, Seq<char>) {
        (self.model@, self.effort@)
    }
}

impl Key for ClaudeKey {
    fn same(&self, other: &Self) -> (r: bool) {
        self.model == other.model && self.effort == other.effort
    }

    fn duplicate(&self) -> (r: Self) {
        ClaudeKey { model: self.model.clone(), effort: self.effort.clone() }
    }
}

/// Usage that was counted before all of its bucket was known.
pub struct Pending {
    pub bucket: Bucket,
    pub conversation_id: String,
    pub stats: ModelStats,
}

impl View for Pending {
    type V = PendingView;

    open spec fn view(&self) -> PendingView {
        PendingView {
            bucket: self.bucket@,
            conversation_id: self.conversation_id@,
            stats: self.stats,
        }
    }
}

/// The views of pending usage.
pub open spec fn pending_views(s: Seq<Pending>) -> Seq<PendingView> {
    Seq::new(s.len(), |i: int| s[i]@)
}

/// All that the aggregator remembers.
pub struct Usage {
    pub last_updated: Option<i128>,
    pub claude: Agent,
    pub codex: Agent,
    pub canonical: Table<String, String>,
    pub claude_sources: Table<ClaudeKey, Source>,
    pub claude_metrics: Table<ClaudeKey, ModelStats>,
    pub last_sessions: Table<String, CodexSession>,
    pub last_session: Option<CodexSession>,
    pub sessions: Table<String, CodexSession>,
    pub codex_sources: Table<String, Source>,
    pub pending: Vec<Pending>,
}

/// A time as an integer.
pub open spec fn time_view(t: Option<i128>) -> Option<int> {
    match t {
        Some(t) => Some(t as int),
        None => None,
    }
}

/// What is known of a conversation, if there is one.
pub open spec fn session_view(s: Option<CodexSession>) -> Option<SessionView> {
    match s {
        Some(s) => Some(s@),
        None => None,
    }
}

impl View for Usage {
    type V = UsageView;

    open spec fn view(&self) -> UsageView {
        UsageView {
            last_updated: time_view(self.last_updated),
            claude: self.claude@,
            codex: self.codex@,
            canonical: self.canonical@,
            claude_sources: self.claude_sources@,
            claude_metrics: self.claude_metrics@,
            last_sessions: self.last_sessions@,
            last_session: session_view(self.last_session),
            sessions: self.sessions@,
            codex_sources: self.codex_sources@,
            pending: pending_views(self.pending@),
        }
    }
}

/// Adding in either order gives the same counters.
proof fn lemma_plus_commutes(a: ModelStats, b: ModelStats)
    ensures
        a.plus(b) == b.plus(a),
        super::stats::no_stats().plus(a) == a,
{
}

/// Folding a model name, one bucket at a time.
pub proof fn lemma_fold_one(
    m: Map<BucketId, ModelStats>,
    k: BucketId,
    v: ModelStats,
    bare: Seq<char>,
    full: Seq<char>,
)
    requires
        bare != full,
        !m.dom().contains(k),
    ensures
        ({
            let f = super::model::folded(m, bare, full);
            let to = if k.model == bare {
                BucketId { model: full, ..k }
            } else {
                k
            };
            super::model::folded(m.insert(k, v), bare, full) == f.insert(
                to,
                super::model::stats_at(f, to).plus(v),
            )
        }),
{
    let f = super::model::folded(m, bare, full);
    let to = if k.model == bare {
        BucketId { model: full, ..k }
    } else {
        k
    };
    let left = super::model::folded(m.insert(k, v), bare, full);
    let right = f.insert(to, super::model::stats_at(f, to).plus(v));
    lemma_plus_commutes(v, super::model::stats_at(f, to));
    assert forall|x: BucketId| left.dom().contains(x) == right.dom().contains(x) by {
        let b = BucketId { model: bare, ..x };
        if b == k {
            assert(to.model == x.model || x.model != full);
        }
        assert(BucketId { model: full, ..BucketId { model: bare, ..x } } =~= BucketId {
            model: full,
            ..x
        });
    }
    assert forall|x: BucketId| left.dom().contains(x) implies left[x] == right[x] by {
        let b = BucketId { model: bare, ..x };
        lemma_plus_commutes(v, super::model::stats_at(m, x));
        lemma_plus_commutes(v, super::model::stats_at(m, b));
        if x == to && k.model == full {
            assert(x == k);
        }
    }
    assert(left =~= right);
}

/// Folds the buckets of a bare model name into those of the full name.
fn fold_model(buckets: &mut Table<Bucket, ModelStats>, bare: &String, full: &String)
    requires
        old(buckets).wf(),
        bare@ != full@,
    ensures
        final(buckets).wf(),
        final(buckets)@ == super::model::folded(old(buckets)@, bare@, full@),
{
    let mut out: Table<Bucket, ModelStats> = Table::new();
    let ghost rows = buckets.spec_rows();
    proof {
        buckets.lemma_rows();
        assert(crate::table::rows_map(rows.take(0)) =~= Map::<BucketId, ModelStats>::empty());
        assert(out@ =~= super::model::folded(crate::table::rows_map(rows.take(0)), bare@, full@));
    }
    let count: usize = buckets.len();
    for i in 0..count
        invariant
            count == rows.len(),
            out.wf(),
            bare@ != full@,
            rows == buckets.spec_rows(),
            crate::table::distinct_keys(rows),
            out@ == super::model::folded(crate::table::rows_map(rows.take(i as int)), bare@, full@),
    {
        let row = buckets.row(i);
        let mut key = row.key.duplicate();
        if row.key.model == *bare {
            key.model = full.clone();
        }
        let mut entry = match out.get(&key) {
            Some(s) => *s,
            None => ModelStats::default(),
        };
        entry.add(&row.value);
        proof {
            let front = rows.take(i as int);
            assert(rows.take(i + 1).drop_last() =~= front);
            assert(crate::table::distinct_keys(front)) by {
                assert forall|a: int, b: int| 0 <= a < b < front.len() implies #[trigger] front[a].key@
                    != #[trigger] front[b].key@ by {
                    assert(rows[a].key@ != rows[b].key@);
                }
            }
            crate::table::lemma_rows_map(front);
            if crate::table::rows_map(front).dom().contains(row.key@) {
                let j = choose|j: int| 0 <= j < front.len() && #[trigger] front[j].key@ == row.key@;
                assert(rows[j].key@ != rows[i as int].key@);
            }
            lemma_fold_one(crate::table::rows_map(front), row.key@, row.value, bare@, full@);
            assert(key@ =~= (if row.key@.model == bare@ {
                BucketId { model: full@, ..row.key@ }
            } else {
                row.key@
            }));
        }
        out.insert(key, entry);
    }
    assert(rows.take(rows.len() as int) =~= rows);
    *buckets = out;
}

/// The key of the table that decides between Anthropic logs and metrics.
fn claude_source_key(bucket: &Bucket) -> (r: ClaudeKey)
    ensures
        r@ == super::model::claude_source_key(bucket@),
{
    let chars = chars_of(bucket.model.as_str());
    let end: usize = find_char(&chars, '[');
    let bare = text_of(&copy_range(&chars, 0, end));
    assert(bare@ =~= crate::text::before(bucket.model@, '['));
    ClaudeKey { model: non_empty(bare.as_str()), effort: non_empty(bucket.effort.as_str()) }
}

/// Adds a sample to pending usage.
pub fn add_pending(pending: &mut Vec<Pending>, bucket: &Bucket, conversation_id: &String, stats: &ModelStats)
    ensures
        pending_views(final(pending)@) == super::model::pending_plus(
            pending_views(old(pending)@),
            bucket@,
            conversation_id@,
            *stats,
        ),
{
    let ghost before = pending_views(pending@);
    let mut i: usize = 0;
    while i < pending.len()
        invariant
            i <= pending@.len(),
            before == pending_views(old(pending)@),
            before == pending_views(pending@),
            super::model::pending_position(before, bucket@, conversation_id@, 0)
                == super::model::pending_position(before, bucket@, conversation_id@, i as int),
        decreases pending@.len() - i,
    {
        if pending[i].bucket.same(bucket) && pending[i].conversation_id == *conversation_id {
            assert(before[i as int] == pending@[i as int]@);
            let mut sum = pending[i].stats;
            sum.add(stats);
            let fresh = Pending {
                bucket: bucket.duplicate(),
                conversation_id: conversation_id.clone(),
                stats: sum,
            };
            pending[i] = fresh;
            assert(pending_views(pending@) =~= before.update(
                i as int,
                PendingView { stats: sum, ..before[i as int] },
            ));
            return ;
        }
        i = i + 1;
    }
    pending.push(
        Pending {
            bucket: bucket.duplicate(),
            conversation_id: conversation_id.clone(),
            stats: *stats,
        },
    );
    assert(pending_views(pending@) =~= before.push(
        PendingView { bucket: bucket@, conversation_id: conversation_id@, stats: *stats },
    ));
}

impl Usage {
    pub open spec fn wf(&self) -> bool {
        &&& self.claude.wf()
        &&& self.codex.wf()
        &&& self.canonical.wf()
        &&& self.claude_sources.wf()
        &&& self.claude_metrics.wf()
        &&& self.last_sessions.wf()
        &&& self.sessions.wf()
        &&& self.codex_sources.wf()
    }

    pub fn new() -> (r: Usage)
        ensures
            r.wf(),
            r@ == super::model::empty_usage(),
    {
        let r = Usage {
            last_updated: None,
            claude: Agent::new(),
            codex: Agent::new(),
            canonical: Table::new(),
            claude_sources: Table::new(),
            claude_metrics: Table::new(),
            last_sessions: Table::new(),
            last_session: None,
            sessions: Table::new(),
            codex_sources: Table::new(),
            pending: Vec::new(),
        };
        assert(r@.pending =~= super::model::empty_usage().pending);
        r
    }

    /// An Anthropic sample.
    pub fn record_claude(&mut self, bucket: &Bucket, stats: &ModelStats, now: i128)
        requires
            old(self).wf(),
        ensures
            final(self).wf(),
            final(self)@ == super::model::claude_recorded(old(self)@, bucket@, *stats, now as int),
    {
        self.last_updated = Some(now);
        self.claude.record(bucket, stats);
    }

    /// A Codex sample.
    pub fn record_codex(&mut self, bucket: &Bucket, stats: &ModelStats, now: i128)
        requires
            old(self).wf(),
        ensures
            final(self).wf(),
            final(self)@ == super::model::codex_recorded(old(self)@, bucket@, *stats, now as int),
    {
        self.last_updated = Some(now);
        self.codex.record(bucket, stats);
    }

    /// Usage out of an Anthropic request log.
    pub fn record_claude_log_usage(&mut self, bucket: &Bucket, stats: &ModelStats, now: i128)
        requires
            old(self).wf(),
        ensures
            final(self).wf(),
            final(self)@ == super::model::claude_log_usage(old(self)@, bucket@, *stats, now as int),
    {
        if !stats.has_usage() {
            return ;
        }
        let key = claude_source_key(bucket);
        let from_metrics = match self.claude_sources.get(&key) {
            Some(s) => *s == Source::Metrics,
            None => false,
        };
        if from_metrics {
            match self.claude_metrics.remove(&key) {
                Some(counted) => {
                    self.claude.withdraw(bucket, &counted);
                },
                None => {
                    assert(self@.claude_metrics =~= old(self)@.claude_metrics);
                },
            }
        }
        self.record_claude(bucket, stats, now);
        self.claude_sources.insert(key, Source::Logs);
    }

    /// Usage out of an Anthropic metric; whether it counts.
    pub fn record_claude_metric_usage(
        &mut self,
        bucket: &Bucket,
        stats: &ModelStats,
        now: i128,
    ) -> (r: bool)
        requires
            old(self).wf(),
        ensures
            final(self).wf(),
            final(self)@ == super::model::claude_metric_usage(
                old(self)@,
                bucket@,
                *stats,
                now as int,
            ).usage,
            r == (super::model::claude_metric_usage(
                old(self)@,
                bucket@,
                *stats,
                now as int,
            ).hits == 1),
    {
        if !stats.has_usage() {
            return false;
        }
        let key = claude_source_key(bucket);
        let from_logs = match self.claude_sources.get(&key) {
            Some(s) => *s == Source::Logs,
            None => false,
        };
        if from_logs {
            return false;
        }
        self.record_claude(bucket, stats, now);
        self.claude_sources.insert(key.duplicate(), Source::Metrics);
        let mut counted = match self.claude_metrics.get(&key) {
            Some(s) => *s,
            None => ModelStats::default(),
        };
        counted.add(stats);
        self.claude_metrics.insert(key, counted);
        true
    }

    /// The full name of an Anthropic model, as far as it is known.
    pub fn canonical_claude_model(&self, raw: &String) -> (r: String)
        requires
            self.wf(),
        ensures
            r@ == super::model::canonical_model(self@, raw@),
    {
        match self.canonical.get(raw) {
            Some(full) => full.clone(),
            None => raw.clone(),
        }
    }

    /// Remembers the full name of an Anthropic model.
    pub fn register_canonical_claude_model(&mut self, full: &String)
        requires
            old(self).wf(),
        ensures
            final(self).wf(),
            final(self)@ == super::model::claude_model_seen(old(self)@, full@),
    {
        let chars = chars_of(full.as_str());
        if chars.len() == 0 {
            return ;
        }
        let end: usize = find_char(&chars, '[');
        let bare = text_of(&copy_range(&chars, 0, end));
        assert(bare@ =~= crate::text::before(full@, '['));
        if end == 0 || end == chars.len() {
            assert(end == chars@.len() ==> bare@ =~= full@);
            if self.canonical.get(full).is_none() {
                self.canonical.insert(full.clone(), full.clone());
            }
            return ;
        }
        assert(bare@.len() < full@.len());
        let already = match self.canonical.get(&bare) {
            Some(f) => *f == *full,
            None => false,
        };
        if already {
            return ;
        }
        self.canonical.insert(bare.clone(), full.clone());
        fold_model(&mut self.claude.buckets, &bare, full);
    }
}

} // verus!
