//! Usage out of the telemetry of the Anthropic agent.

use super::codex::number_value_as_u64;
use super::stats::{Bucket, ModelStats};
use super::usage::Usage;
use crate::double::Usd;
use crate::otlp::{
    cost_attr, string_attr_or_empty, u64_attr, whole_dollars, KeyValue, LogRecord,
    NumberDataPoint, NumberValue, Value,
};
use crate::text::same_text;
use vstd::prelude::*;

verus! {

/// What a number data point adds to a cost.
pub fn number_value_as_usd(dp: &NumberDataPoint) -> (r: Usd)
    ensures
        r == super::model::point_usd(*dp),
{
    match &dp.value {
        Some(NumberValue::AsInt(i)) => whole_dollars(*i),
        Some(NumberValue::AsDouble(d)) => d.usd(),
        None => Usd { units: 0 },
    }
}

/// Whether a log record reports an API request.
fn is_api_request(log: &LogRecord) -> (r: bool)
    ensures
        r == super::model::is_claude_request(*log),
{
    match &log.body {
        Some(body) => match &body.value {
            Some(Value::Text(s)) => same_text(s.as_str(), "claude_code.api_request"),
            _ => false,
        },
        None => false,
    }
}

/// The bucket of a data point.
fn point_bucket(attrs: &Vec<KeyValue>) -> (r: Bucket)
    ensures
        r@ == super::model::claude_point_bucket(attrs@),
{
    let model = string_attr_or_empty(attrs, "model");
    let effort = string_attr_or_empty(attrs, "effort");
    Bucket::from_parts("anthropic", model.as_str(), effort.as_str())
}

impl Usage {
    /// What an API request log counts for: its bucket, the request, and its
    /// tokens and cost.
    pub fn extract_claude_api_request_meta(&self, log: &LogRecord) -> (r: Option<
        (Bucket, ModelStats, ModelStats),
    >)
        requires
            self.wf(),
        ensures
            r is Some <==> super::model::is_claude_request(*log),
            r matches Some((bucket, request, usage)) ==> {
                &&& bucket@ == super::model::claude_request_bucket(self@, log.attributes@)
                &&& request == super::model::claude_request_stats(log.attributes@)
                &&& usage == super::model::claude_usage_stats(log.attributes@)
            },
    {
        if !is_api_request(log) {
            return None;
        }
        let attrs = &log.attributes;
        let raw = string_attr_or_empty(attrs, "model");
        let model = self.canonical_claude_model(&raw);
        let effort = string_attr_or_empty(attrs, "effort");
        let mut request = ModelStats::default();
        request.request_count = 1;
        request.duration_ms = u64_attr(attrs, "duration_ms");
        let mut usage = ModelStats::default();
        usage.input_tokens = u64_attr(attrs, "input_tokens");
        usage.output_tokens = u64_attr(attrs, "output_tokens");
        usage.cache_read_tokens = u64_attr(attrs, "cache_read_tokens");
        usage.cache_creation_tokens = u64_attr(attrs, "cache_creation_tokens");
        usage.cost_usd = cost_attr(attrs, "cost_usd");
        Some((Bucket::from_parts("anthropic", model.as_str(), effort.as_str()), request, usage))
    }

    /// Takes in a log record; whether it counts.
    pub fn ingest_claude_log(&mut self, log: &LogRecord, now: i128) -> (r: bool)
        requires
            old(self).wf(),
        ensures
            final(self).wf(),
            final(self)@ == super::model::claude_log(old(self)@, *log, now as int).usage,
            super::model::claude_log(old(self)@, *log, now as int).hits == (if r {
                1nat
            } else {
                0nat
            }),
    {
        match self.extract_claude_api_request_meta(log) {
            Some((bucket, request, usage)) => {
                self.record_claude(&bucket, &request, now);
                self.record_claude_log_usage(&bucket, &usage, now);
                true
            },
            None => false,
        }
    }

    /// Takes in a data point of `claude_code.token.usage`; whether it counts.
    pub fn ingest_claude_token(&mut self, dp: &NumberDataPoint, now: i128) -> (r: bool)
        requires
            old(self).wf(),
        ensures
            final(self).wf(),
            final(self)@ == super::model::claude_token_point(old(self)@, *dp, now as int).usage,
            super::model::claude_token_point(old(self)@, *dp, now as int).hits == (if r {
                1nat
            } else {
                0nat
            }),
    {
        let model = string_attr_or_empty(&dp.attributes, "model");
        self.register_canonical_claude_model(&model);
        let kind = string_attr_or_empty(&dp.attributes, "type");
        let value: u64 = number_value_as_u64(dp);
        let mut stats = ModelStats::default();
        if same_text(kind.as_str(), "input") {
            stats.input_tokens = value;
        } else if same_text(kind.as_str(), "output") {
            stats.output_tokens = value;
        } else if same_text(kind.as_str(), "cacheRead") {
            stats.cache_read_tokens = value;
        } else if same_text(kind.as_str(), "cacheCreation") {
            stats.cache_creation_tokens = value;
        } else {
            return false;
        }
        assert(super::model::claude_token_stats(kind@, value) == Some(stats));
        self.record_claude_metric_usage(&point_bucket(&dp.attributes), &stats, now)
    }

    /// Takes in a data point of `claude_code.cost.usage`; whether it counts.
    pub fn ingest_claude_cost(&mut self, dp: &NumberDataPoint, now: i128) -> (r: bool)
        requires
            old(self).wf(),
        ensures
            final(self).wf(),
            final(self)@ == super::model::claude_cost_point(old(self)@, *dp, now as int).usage,
            super::model::claude_cost_point(old(self)@, *dp, now as int).hits == (if r {
                1nat
            } else {
                0nat
            }),
    {
        let model = string_attr_or_empty(&dp.attributes, "model");
        self.register_canonical_claude_model(&model);
        let mut stats = ModelStats::default();
        stats.cost_usd = number_value_as_usd(dp);
        self.record_claude_metric_usage(&point_bucket(&dp.attributes), &stats, now)
    }
}

} // verus!
