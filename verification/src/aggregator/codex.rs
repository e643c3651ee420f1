//! Usage out of Codex telemetry.

use super::model::{PendingView, Source};
use super::stats::{non_empty, Bucket, ModelStats};
use super::usage::{add_pending, Agent, CodexSession, Pending, Usage};
use crate::double::Usd;
use crate::otlp::{
    string_attr, string_attr_or_empty, text_is, u64_attr, Event, HistogramDataPoint, KeyValue,
    LogRecord, NumberDataPoint, NumberValue, Value,
};
use crate::table::Key;
use crate::text::{is_empty, same_text};
use vstd::prelude::*;

verus! {

/// Whether a service is one of the Codex processes.
pub fn is_codex_service(service: &str) -> (r: bool)
    ensures
        r == super::model::is_codex(service@),
{
    same_text(service, "codex_cli_rs") || same_text(service, "codex_exec") || same_text(
        service,
        "codex-app-server",
    ) || same_text(service, "codex_mcp_server")
}

/// What the attributes of a `codex.conversation_starts` event say.
pub fn extract_session_from_attrs(attrs: &Vec<KeyValue>) -> (r: Option<CodexSession>)
    ensures
        r is Some <==> super::model::session_of(attrs@) is Some,
        r matches Some(s) ==> s@ == super::model::session_of(attrs@)->0,
{
    let conversation_id = string_attr_or_empty(attrs, "conversation.id");
    let provider = match string_attr(attrs, "provider_name") {
        Some(p) => p.clone(),
        None => "OpenAI".to_owned(),
    };
    let model = string_attr_or_empty(attrs, "model");
    let effort = string_attr_or_empty(attrs, "reasoning_effort");
    if is_empty(conversation_id.as_str()) && is_empty(model.as_str()) && is_empty(effort.as_str()) {
        return None;
    }
    Some(CodexSession { conversation_id, provider, confirmed: true, model, effort })
}

/// Whether a log record starts a conversation.
fn log_starts_conversation(log: &LogRecord) -> (r: bool)
    ensures
        r == super::model::starts_conversation(*log),
{
    let by_body = match &log.body {
        Some(body) => match &body.value {
            Some(Value::Text(s)) => same_text(s.as_str(), "codex.conversation_starts"),
            _ => false,
        },
        None => false,
    };
    by_body || text_is(&log.attributes, "event.name", "codex.conversation_starts") || same_text(
        log.event_name.as_str(),
        "codex.conversation_starts",
    )
}

/// The conversation that a log record starts.
pub fn extract_codex_conversation_starts(log: &LogRecord) -> (r: Option<CodexSession>)
    ensures
        r is Some <==> super::model::starts_conversation(*log) && super::model::session_of(
            log.attributes@,
        ) is Some,
        r matches Some(s) ==> s@ == super::model::session_of(log.attributes@)->0,
{
    if log_starts_conversation(log) {
        extract_session_from_attrs(&log.attributes)
    } else {
        None
    }
}

/// The conversation that a span event starts.
pub fn extract_event_conversation_starts(ev: &Event) -> (r: Option<CodexSession>)
    ensures
        r is Some <==> super::model::event_starts_conversation(*ev) && super::model::session_of(
            ev.attributes@,
        ) is Some,
        r matches Some(s) ==> s@ == super::model::session_of(ev.attributes@)->0,
{
    if same_text(ev.name.as_str(), "codex.conversation_starts") || text_is(
        &ev.attributes,
        "event.name",
        "codex.conversation_starts",
    ) {
        extract_session_from_attrs(&ev.attributes)
    } else {
        None
    }
}

/// The bucket of pending usage once a conversation is known better.
fn settled_bucket(b: &Bucket, s: &CodexSession) -> (r: Bucket)
    ensures
        r@ == super::model::settled_bucket(b@, s@),
{
    Bucket {
        provider: if s.confirmed {
            non_empty(s.provider.as_str())
        } else {
            b.provider.clone()
        },
        model: b.model.clone(),
        effort: if same_text(b.effort.as_str(), "unknown") {
            non_empty(s.effort.as_str())
        } else {
            b.effort.clone()
        },
    }
}

/// Whether nothing remains to be learned of usage in a bucket.
fn is_settled(b: &Bucket, s: &CodexSession) -> (r: bool)
    ensures
        r == super::model::is_settled(b@, s@),
{
    s.confirmed && !same_text(b.effort.as_str(), "unknown")
}

/// All that is pending for a bucket.
fn sum_pending(pending: &Vec<Pending>, b: &Bucket) -> (r: ModelStats)
    ensures
        r == super::model::pending_total(super::usage::pending_views(pending@), b@),
{
    let mut total = ModelStats::default();
    let ghost views = super::usage::pending_views(pending@);
    for i in 0..pending.len()
        invariant
            views == super::usage::pending_views(pending@),
            total == super::model::pending_total(views.take(i as int), b@),
    {
        assert(views.take(i + 1).drop_last() =~= views.take(i as int));
        assert(views[i as int] == pending@[i as int]@);
        if pending[i].bucket.same(b) {
            total.add(&pending[i].stats);
        }
    }
    assert(views.take(views.len() as int) =~= views);
    total
}

/// Settles pending usage of a conversation.
fn settle(agent: &mut Agent, pending: &Vec<Pending>, s: &CodexSession) -> (r: Vec<Pending>)
    requires
        old(agent).wf(),
    ensures
        final(agent).wf(),
        ({
            let after = super::model::settle(
                old(agent)@,
                super::usage::pending_views(pending@),
                s@,
            );
            &&& final(agent)@ == after.0
            &&& super::usage::pending_views(r@) == after.1
        }),
{
    let mut kept: Vec<Pending> = Vec::new();
    let ghost views = super::usage::pending_views(pending@);
    let ghost start = agent@;
    assert(super::usage::pending_views(kept@) =~= Seq::<PendingView>::empty());
    for i in 0..pending.len()
        invariant
            agent.wf(),
            views == super::usage::pending_views(pending@),
            agent@ == super::model::settle(start, views.take(i as int), s@).0,
            super::usage::pending_views(kept@) == super::model::settle(
                start,
                views.take(i as int),
                s@,
            ).1,
    {
        assert(views.take(i + 1).drop_last() =~= views.take(i as int));
        assert(views[i as int] == pending@[i as int]@);
        let p = &pending[i];
        if p.conversation_id == s.conversation_id && p.bucket.model == s.model {
            let to = settled_bucket(&p.bucket, s);
            if !to.same(&p.bucket) {
                agent.shift(&p.bucket, &to, &p.stats);
            }
            if !is_settled(&to, s) {
                add_pending(&mut kept, &to, &p.conversation_id, &p.stats);
            }
        } else {
            let ghost before = super::usage::pending_views(kept@);
            kept.push(
                Pending {
                    bucket: p.bucket.duplicate(),
                    conversation_id: p.conversation_id.clone(),
                    stats: p.stats,
                },
            );
            assert(super::usage::pending_views(kept@) =~= before.push(p@));
        }
    }
    assert(views.take(views.len() as int) =~= views);
    kept
}

/// A conversation with another effort.
fn with_effort(s: Option<&CodexSession>, effort: String) -> (r: CodexSession)
    ensures
        r@ == super::model::with_effort(
            match s {
                Some(s) => Some(s@),
                None => None,
            },
            effort@,
        ),
{
    match s {
        Some(s) => {
            let mut known = s.duplicate();
            known.effort = effort;
            known
        },
        None => {
            let r = CodexSession {
                conversation_id: String::new(),
                provider: "OpenAI".to_owned(),
                confirmed: false,
                model: String::new(),
                effort,
            };
            assert(r@.conversation_id =~= Seq::<char>::empty());
            r
        },
    }
}

impl Usage {
    /// Usage of unknown effort takes the effort of a conversation without id.
    fn adopt_unknown(&mut self, s: &CodexSession)
        requires
            old(self).wf(),
        ensures
            final(self).wf(),
            final(self)@ == super::model::adopt_unknown(old(self)@, s@),
    {
        if is_empty(s.model.as_str()) || is_empty(s.effort.as_str()) || same_text(s.effort.as_str(), "unknown") {
            return ;
        }
        let from = Bucket::from_parts(s.provider.as_str(), s.model.as_str(), "unknown");
        let to = Bucket::from_parts(s.provider.as_str(), s.model.as_str(), s.effort.as_str());
        let held = match self.codex.buckets.get(&from) {
            Some(stats) => *stats,
            None => {
                return ;
            },
        };
        let movable = held.saturating_sub_stats(&sum_pending(&self.pending, &from));
        if !movable.has_any_value() {
            return ;
        }
        self.codex.shift(&from, &to, &movable);
    }

    /// A service reported a conversation.
    pub fn update_codex_session(&mut self, service: &String, s: CodexSession)
        requires
            old(self).wf(),
        ensures
            final(self).wf(),
            final(self)@ == super::model::session_known(old(self)@, service@, s@),
    {
        if !is_empty(s.conversation_id.as_str()) {
            self.sessions.insert(s.conversation_id.clone(), s.duplicate());
        }
        self.last_sessions.insert(service.clone(), s.duplicate());
        self.last_session = Some(s.duplicate());
        self.attribute(&s);
    }

    /// Moves usage to where a conversation says that it belongs.
    fn attribute(&mut self, s: &CodexSession)
        requires
            old(self).wf(),
        ensures
            final(self).wf(),
            final(self)@ == super::model::attributed(old(self)@, s@),
    {
        if is_empty(s.conversation_id.as_str()) {
            self.adopt_unknown(s);
        } else if !is_empty(s.model.as_str()) {
            let kept = settle(&mut self.codex, &self.pending, s);
            self.pending = kept;
        }
    }

    /// A service stated the effort of a conversation by its id.
    fn update_codex_effort(&mut self, service: &String, s: CodexSession)
        requires
            old(self).wf(),
        ensures
            final(self).wf(),
            final(self)@ == super::model::effort_known(old(self)@, service@, s@),
    {
        let of_service = match self.last_sessions.get(service) {
            Some(last) => last.conversation_id == s.conversation_id,
            None => false,
        };
        let of_all = match &self.last_session {
            Some(last) => last.conversation_id == s.conversation_id,
            None => false,
        };
        self.sessions.insert(s.conversation_id.clone(), s.duplicate());
        if of_service {
            self.last_sessions.insert(service.clone(), s.duplicate());
        }
        if of_all {
            self.last_session = Some(s.duplicate());
        }
        self.attribute(&s);
    }

    /// A service stated the effort of the last conversation.
    fn update_codex_last_effort(&mut self, service: &String, s: CodexSession)
        requires
            old(self).wf(),
        ensures
            final(self).wf(),
            final(self)@ == super::model::last_effort_known(old(self)@, service@, s@),
    {
        let own = with_effort(self.last_sessions.get(service), s.effort.clone());
        if !is_empty(s.conversation_id.as_str()) {
            self.sessions.insert(s.conversation_id.clone(), s.duplicate());
        }
        self.last_sessions.insert(service.clone(), own);
        self.last_session = Some(s.duplicate());
        self.attribute(&s);
    }

    /// The conversation with the id that the attributes hold, or else the last.
    fn session_for_attrs(&self, attrs: &Vec<KeyValue>) -> (r: Option<&CodexSession>)
        requires
            self.wf(),
        ensures
            r is Some <==> super::model::sse_session(self@, attrs@) is Some,
            r matches Some(s) ==> s@ == super::model::sse_session(self@, attrs@)->0,
    {
        let id = string_attr_or_empty(attrs, "conversation.id");
        if is_empty(id.as_str()) {
            self.last_session.as_ref()
        } else {
            self.sessions.get(&id)
        }
    }

    /// What an SSE completion counts for: its bucket, its tokens, and its
    /// conversation where they stay pending.
    pub fn extract_codex_sse_response_completed(
        &self,
        log: &LogRecord,
    ) -> (r: Option<CodexSseExtraction>)
        requires
            self.wf(),
        ensures
            r is Some <==> super::model::is_sse_usage(log.attributes@),
            r matches Some(x) ==> {
                &&& x.bucket@ == super::model::sse_bucket(self@, log.attributes@)
                &&& x.stats == super::model::sse_stats(log.attributes@)
                &&& x.pending_conversation is Some <==> super::model::sse_pending(
                    self@,
                    log.attributes@,
                )
                &&& x.pending_conversation matches Some(id) ==> id@
                    == crate::otlp::text_attr_or_empty(log.attributes@, "conversation.id"@)
            },
    {
        let attrs = &log.attributes;
        if !text_is(attrs, "event.name", "codex.sse_event") || !text_is(
            attrs,
            "event.kind",
            "response.completed",
        ) {
            return None;
        }
        let stats = ModelStats {
            request_count: 0,
            input_tokens: u64_attr(attrs, "input_token_count"),
            output_tokens: u64_attr(attrs, "output_token_count"),
            cache_read_tokens: u64_attr(attrs, "cached_token_count"),
            cache_creation_tokens: u64_attr(attrs, "cache_write_token_count"),
            reasoning_output_tokens: u64_attr(attrs, "reasoning_token_count"),
            cost_usd: Usd { units: 0 },
            duration_ms: 0,
        };
        let tool_tokens: u64 = u64_attr(attrs, "tool_token_count");
        if !stats.has_any_value() {
            return None;
        }
        if stats.input_tokens == tool_tokens && stats.output_tokens == 0 && stats.cache_read_tokens
            == 0 && stats.cache_creation_tokens == 0 && stats.reasoning_output_tokens == 0 {
            return None;
        }
        let id = string_attr_or_empty(attrs, "conversation.id");
        let session = self.session_for_attrs(attrs);
        let mut model = string_attr_or_empty(attrs, "model");
        if is_empty(model.as_str()) {
            model = string_attr_or_empty(attrs, "slug");
            if is_empty(model.as_str()) {
                model = session_model(session);
            }
        }
        let mut effort = string_attr_or_empty(attrs, "model_reasoning_effort");
        if is_empty(effort.as_str()) {
            effort = session_effort(session);
        }
        let bucket = Bucket::from_parts(
            session_provider(session).as_str(),
            model.as_str(),
            effort.as_str(),
        );
        let settled = match session {
            Some(s) => is_settled(&bucket, s),
            None => false,
        };
        let pending_conversation = if !is_empty(id.as_str()) && !settled {
            Some(id)
        } else {
            None
        };
        Some(CodexSseExtraction { bucket, stats, pending_conversation })
    }

    /// Whether Codex tokens of a model are counted from the given source.
    pub fn counts_codex(&self, model: &String, source: Source) -> (r: bool)
        requires
            self.wf(),
        ensures
            r == super::model::codex_counts(self@, model@, source),
    {
        match self.codex_sources.get(model) {
            Some(s) => *s == source,
            None => true,
        }
    }

    /// Takes in an SSE completion; whether it counts.
    pub fn ingest_codex_sse(&mut self, log: &LogRecord, now: i128) -> (r: bool)
        requires
            old(self).wf(),
        ensures
            final(self).wf(),
            ({
                let after = super::model::sse_completed(old(self)@, log.attributes@, now as int);
                &&& final(self)@ == after.usage
                &&& after.hits == (if r {
                    1nat
                } else {
                    0nat
                })
            }),
    {
        let parsed = match self.extract_codex_sse_response_completed(log) {
            Some(p) => p,
            None => {
                return false;
            },
        };
        if !self.counts_codex(&parsed.bucket.model, Source::Logs) {
            return false;
        }
        self.record_codex(&parsed.bucket, &parsed.stats, now);
        if let Some(id) = &parsed.pending_conversation {
            add_pending(&mut self.pending, &parsed.bucket, id, &parsed.stats);
        }
        self.codex_sources.insert(parsed.bucket.model.clone(), Source::Logs);
        true
    }

    /// Takes the effort out of a `handle_responses` span; whether it states one.
    pub fn update_codex_effort_from_request_attrs(
        &mut self,
        service: &String,
        attrs: &Vec<KeyValue>,
    ) -> (r: bool)
        requires
            old(self).wf(),
        ensures
            final(self).wf(),
            ({
                let after = super::model::effort_seen(old(self)@, service@, attrs@);
                &&& final(self)@ == after.usage
                &&& after.hits == (if r {
                    1nat
                } else {
                    0nat
                })
            }),
    {
        let effort = string_attr_or_empty(attrs, "codex.request.reasoning_effort");
        if is_empty(effort.as_str()) {
            return false;
        }
        let id = string_attr_or_empty(attrs, "conversation.id");
        let has_id = !is_empty(id.as_str());
        let known = self.session_for_attrs(attrs);
        let is_new = has_id && known.is_none();
        let mut session = with_effort(known, effort);
        if is_new {
            session.conversation_id = id;
            session.model = string_attr_or_empty(attrs, "model");
        }
        assert(session@ =~= super::model::span_session(self@, attrs@));
        if has_id {
            self.update_codex_effort(service, session);
        } else {
            self.update_codex_last_effort(service, session);
        }
        true
    }

    /// The bucket of a Codex data point.
    pub fn codex_point_bucket(&self, service: &String, attrs: &Vec<KeyValue>) -> (r: Bucket)
        requires
            self.wf(),
        ensures
            r@ == super::model::codex_point_bucket(self@, service@, attrs@),
    {
        let session = self.last_sessions.get(service);
        let model = string_attr_or_empty(attrs, "model");
        Bucket::from_parts(
            session_provider(session).as_str(),
            model.as_str(),
            session_effort(session).as_str(),
        )
    }

    /// Takes in a data point of `codex.turn.token_usage`; whether it counts.
    pub fn ingest_codex_token(
        &mut self,
        service: &String,
        dp: &HistogramDataPoint,
        now: i128,
    ) -> (r: bool)
        requires
            old(self).wf(),
        ensures
            final(self).wf(),
            ({
                let after = super::model::codex_token_point(old(self)@, service@, *dp, now as int);
                &&& final(self)@ == after.usage
                &&& after.hits == (if r {
                    1nat
                } else {
                    0nat
                })
            }),
    {
        let bucket = self.codex_point_bucket(service, &dp.attributes);
        if !self.counts_codex(&bucket.model, Source::Metrics) {
            return false;
        }
        let kind = string_attr_or_empty(&dp.attributes, "token_type");
        let value: u64 = histogram_sum_as_u64(dp);
        let mut stats = ModelStats::default();
        if same_text(kind.as_str(), "input") {
            stats.input_tokens = value;
        } else if same_text(kind.as_str(), "output") {
            stats.output_tokens = value;
        } else if same_text(kind.as_str(), "cached_input") {
            stats.cache_read_tokens = value;
        } else if same_text(kind.as_str(), "cache_write_input") {
            stats.cache_creation_tokens = value;
        } else if same_text(kind.as_str(), "reasoning_output") {
            stats.reasoning_output_tokens = value;
        } else {
            return false;
        }
        assert(super::model::codex_token_stats(kind@, value) == Some(stats));
        self.record_codex(&bucket, &stats, now);
        self.codex_sources.insert(bucket.model.clone(), Source::Metrics);
        true
    }

    /// Takes in a data point of `codex.conversation.turn.count`.
    pub fn ingest_codex_turn_count(&mut self, service: &String, dp: &NumberDataPoint, now: i128)
        requires
            old(self).wf(),
        ensures
            final(self).wf(),
            final(self)@ == super::model::codex_turn_point(
                old(self)@,
                service@,
                *dp,
                now as int,
            ).usage,
    {
        let bucket = self.codex_point_bucket(service, &dp.attributes);
        let mut stats = ModelStats::default();
        stats.request_count = number_value_as_u64(dp);
        self.record_codex(&bucket, &stats, now);
    }

    /// Takes in a data point of `codex.turn.e2e_duration_ms`.
    pub fn ingest_codex_duration(&mut self, service: &String, dp: &HistogramDataPoint, now: i128)
        requires
            old(self).wf(),
        ensures
            final(self).wf(),
            final(self)@ == super::model::codex_duration_point(
                old(self)@,
                service@,
                *dp,
                now as int,
            ).usage,
    {
        let bucket = self.codex_point_bucket(service, &dp.attributes);
        let mut stats = ModelStats::default();
        stats.duration_ms = histogram_sum_as_u64(dp);
        self.record_codex(&bucket, &stats, now);
    }
}

/// What an SSE completion counts for.
pub struct CodexSseExtraction {
    pub bucket: Bucket,
    pub stats: ModelStats,
    /// The conversation, where its provider or effort is not known yet.
    pub pending_conversation: Option<String>,
}

/// The view of a conversation that may not be known.
pub open spec fn session_view(s: Option<&CodexSession>) -> Option<super::model::SessionView> {
    match s {
        Some(s) => Some(s@),
        None => None,
    }
}

fn session_provider(s: Option<&CodexSession>) -> (r: String)
    ensures
        r@ == super::model::provider_of(session_view(s)),
{
    match s {
        Some(s) => s.provider.clone(),
        None => "OpenAI".to_owned(),
    }
}

fn session_model(s: Option<&CodexSession>) -> (r: String)
    ensures
        r@ == super::model::model_of(session_view(s)),
{
    match s {
        Some(s) => s.model.clone(),
        None => {
            let empty = String::new();
            assert(empty@ =~= Seq::<char>::empty());
            empty
        },
    }
}

fn session_effort(s: Option<&CodexSession>) -> (r: String)
    ensures
        r@ == super::model::effort_of(session_view(s)),
{
    match s {
        Some(s) => s.effort.clone(),
        None => {
            let empty = String::new();
            assert(empty@ =~= Seq::<char>::empty());
            empty
        },
    }
}

/// What a number data point adds to a counter.
pub fn number_value_as_u64(dp: &NumberDataPoint) -> (r: u64)
    ensures
        r == super::model::point_counter(*dp),
{
    match &dp.value {
        Some(NumberValue::AsInt(i)) => if *i > 0 {
            *i as u64
        } else {
            0
        },
        Some(NumberValue::AsDouble(d)) => d.counter(),
        None => 0,
    }
}

/// What the sum of a histogram data point adds to a counter.
pub fn histogram_sum_as_u64(dp: &HistogramDataPoint) -> (r: u64)
    ensures
        r == super::model::histogram_counter(*dp),
{
    match &dp.sum {
        Some(d) => d.counter(),
        None => 0,
    }
}

} // verus!
