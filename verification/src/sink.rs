//! What happens to a batch of telemetry: it is kept, counted, shown and handed
//! on, in this order.

pub mod retention;

use crate::aggregator::{Aggregator, UsageSnapshot};
use crate::cli::{LogSink, Settings, SinkView};
use crate::format::{render, render_summary};
use crate::forward::router::{Delivery, ProxyRouter};
use crate::path::{copy_all, parent};
use crate::text::push_text;
use retention::retained_days;
use vstd::prelude::*;

pub use crate::format::TelemetryRecord;

verus! {

/// The name of the kind of a batch.
pub open spec fn kind_of(record: TelemetryRecord) -> Seq<char> {
    match record {
        TelemetryRecord::Traces(_) => "traces"@,
        TelemetryRecord::Metrics(_) => "metrics"@,
        TelemetryRecord::Logs(_) => "logs"@,
    }
}

impl TelemetryRecord {
    /// The name of the kind of the batch.
    pub fn kind(&self) -> (r: &'static str)
        ensures
            r@ == kind_of(*self),
    {
        match self {
            TelemetryRecord::Traces(_) => "traces",
            TelemetryRecord::Metrics(_) => "metrics",
            TelemetryRecord::Logs(_) => "logs",
        }
    }
}

/// What is to be opened to keep telemetry in.
pub enum JsonlPlan {
    /// Nothing is kept.
    Nothing,
    /// A file is appended to, below a directory that is made first.
    Append { path: Vec<u8>, parent: Option<Vec<u8>> },
    /// Daily files in a directory; how many of them are kept.
    Rotate { dir: Vec<u8>, keep_days: u32 },
}

/// What is to be opened to keep telemetry in.
#[verifier::ext_equal]
pub enum PlanView {
    Nothing,
    Append { path: Seq<u8>, parent: Option<Seq<u8>> },
    Rotate { dir: Seq<u8>, keep_days: u32 },
}

impl View for JsonlPlan {
    type V = PlanView;

    open spec fn view(&self) -> PlanView {
        match self {
            JsonlPlan::Nothing => PlanView::Nothing,
            JsonlPlan::Append { path, parent } => PlanView::Append {
                path: path@,
                parent: crate::path::bytes_in(*parent),
            },
            JsonlPlan::Rotate { dir, keep_days } => PlanView::Rotate {
                dir: dir@,
                keep_days: *keep_days,
            },
        }
    }
}

/// The directory above a path, where the path names one.
pub open spec fn named_parent(path: Seq<u8>) -> Option<Seq<u8>> {
    match crate::path::parent_of(path) {
        Some(dir) => if dir.len() > 0 {
            Some(dir)
        } else {
            None
        },
        None => None,
    }
}

/// What is to be opened for a sink.
pub open spec fn plan_for(sink: Option<SinkView>) -> PlanView {
    match sink {
        None => PlanView::Nothing,
        Some(SinkView::File(path)) => PlanView::Append { path, parent: named_parent(path) },
        Some(SinkView::Directory { dir, keep_days }) => PlanView::Rotate {
            dir,
            keep_days: retention::retained(keep_days),
        },
    }
}

impl JsonlPlan {
    /// What is to be opened for a sink.
    pub fn of(sink: &Option<LogSink>) -> (r: JsonlPlan)
        ensures
            r@ == plan_for(crate::cli::sink_in(*sink)),
    {
        match sink {
            None => JsonlPlan::Nothing,
            Some(LogSink::File(path)) => {
                let above = match parent(path) {
                    Some(dir) => if dir.len() > 0 {
                        Some(dir)
                    } else {
                        None
                    },
                    None => None,
                };
                JsonlPlan::Append { path: copy_all(path), parent: above }
            },
            Some(LogSink::Directory { dir, keep_days }) => JsonlPlan::Rotate {
                dir: copy_all(dir),
                keep_days: retained_days(*keep_days),
            },
        }
    }
}

/// A batch could not be kept.
pub struct RecordError {
    /// The kind of the batch.
    pub kind: &'static str,
    /// What went wrong.
    pub cause: String,
}

impl RecordError {
    /// The error as text.
    pub fn message(&self) -> (r: String)
        ensures
            r@ == "persist "@ + self.kind@ + " batch to JSONL"@,
    {
        let mut out = String::new();
        push_text(&mut out, "persist ");
        push_text(&mut out, self.kind);
        push_text(&mut out, " batch to JSONL");
        assert(out@ =~= "persist "@ + self.kind@ + " batch to JSONL"@);
        out
    }
}

/// What is left to do with a batch that was kept and counted.
pub struct Recorded {
    /// The totals, where they are to be shown.
    pub summary: Option<UsageSnapshot>,
    /// What is to be handed on.
    pub deliveries: Vec<Delivery>,
}

/// The usage after a batch that arrived at some time.
pub open spec fn usage_after(
    u: crate::aggregator::model::UsageView,
    record: TelemetryRecord,
    now: int,
) -> crate::aggregator::model::UsageView {
    match record {
        TelemetryRecord::Logs(req) => crate::aggregator::model::logs_taken(
            u,
            req.resource_logs@,
            now,
        ).usage,
        TelemetryRecord::Traces(req) => crate::aggregator::model::traces_taken(
            u,
            req.resource_spans@,
        ).usage,
        TelemetryRecord::Metrics(req) => crate::aggregator::model::metrics_taken(
            u,
            req.resource_metrics@,
            now,
        ).usage,
    }
}

/// The usage after a batch, where batches are to be kept or not, and this one was
/// kept or not: a batch that is to be kept and was not counts for nothing.
pub open spec fn usage_recorded(
    u: crate::aggregator::model::UsageView,
    persists: bool,
    kept: bool,
    record: TelemetryRecord,
    now: int,
) -> crate::aggregator::model::UsageView {
    if persists && !kept {
        u
    } else {
        usage_after(u, record, now)
    }
}

/// What is handed on of a batch.
pub open spec fn handed_on(proxy: Option<ProxyRouter>, record: TelemetryRecord) -> Seq<
    crate::forward::router::DeliveryView,
> {
    match proxy {
        Some(router) => crate::forward::router::deliveries(
            crate::forward::router::lane_routes(router.lanes@),
            crate::forward::router::signal_of(record),
            crate::forward::router::services_of(record),
            router.lanes@.len(),
        ),
        None => Seq::empty(),
    }
}

/// Takes batches of telemetry.
pub struct Sink {
    /// Whether batches are shown.
    pub stdout_enabled: bool,
    /// Whether they are shown in colour.
    pub color: bool,
    /// Whether the totals are shown when they change.
    pub summary_enabled: bool,
    /// Whether batches are kept.
    pub persists: bool,
    /// The totals.
    pub aggregator: Aggregator,
    /// Where batches are handed on.
    pub proxy: Option<ProxyRouter>,
}

impl Sink {
    /// Whether the totals are well formed.
    pub open spec fn wf(&self) -> bool {
        self.aggregator.wf()
    }

    /// Whether two sinks do the same with a batch, whatever they have counted.
    pub open spec fn set_up_like(&self, other: &Sink) -> bool {
        &&& self.stdout_enabled == other.stdout_enabled
        &&& self.color == other.color
        &&& self.summary_enabled == other.summary_enabled
        &&& self.persists == other.persists
        &&& self.proxy == other.proxy
        &&& self.aggregator.spec_started_at() == other.aggregator.spec_started_at()
    }

    /// A sink that starts at a given time, and hands batches on to `proxy`.
    pub fn from_settings_with_proxy(
        settings: &Settings,
        proxy: Option<ProxyRouter>,
        no_color: bool,
        is_terminal: bool,
        now: i128,
    ) -> (r: Sink)
        ensures
            r.wf(),
            r.stdout_enabled == !settings.no_stdout,
            r.color == (!settings.no_stdout && crate::cli::color_on(
                settings.color,
                no_color,
                is_terminal,
            )),
            r.summary_enabled == settings.summary,
            r.persists == (settings.log_sink is Some),
            r.aggregator@ == crate::aggregator::model::empty_usage(),
            r.aggregator.spec_started_at() == now,
            r.proxy == proxy,
    {
        let stdout_enabled = !settings.no_stdout;
        let color = settings.color.enabled_for_stdout(no_color, is_terminal) && stdout_enabled;
        Sink {
            stdout_enabled,
            color,
            summary_enabled: settings.summary,
            persists: settings.log_sink.is_some(),
            aggregator: Aggregator::new_at(now),
            proxy,
        }
    }

    /// A sink that starts at a given time and hands nothing on.
    pub fn from_settings(settings: &Settings, no_color: bool, is_terminal: bool, now: i128) -> (r:
        Sink)
        ensures
            r.wf(),
            r.stdout_enabled == !settings.no_stdout,
            r.color == (!settings.no_stdout && crate::cli::color_on(
                settings.color,
                no_color,
                is_terminal,
            )),
            r.summary_enabled == settings.summary,
            r.persists == (settings.log_sink is Some),
            r.aggregator@ == crate::aggregator::model::empty_usage(),
            r.aggregator.spec_started_at() == now,
            r.proxy is None,
    {
        Sink::from_settings_with_proxy(settings, None, no_color, is_terminal, now)
    }

    /// Counts a batch.
    fn ingest(&mut self, record: &TelemetryRecord, now: i128)
        requires
            old(self).wf(),
        ensures
            final(self).wf(),
            final(self).set_up_like(old(self)),
            final(self).aggregator@ == usage_after(old(self).aggregator@, *record, now as int),
    {
        match record {
            TelemetryRecord::Logs(req) => {
                let _n: usize = self.aggregator.ingest_logs_at(req, now);
            },
            TelemetryRecord::Traces(req) => {
                let _n: usize = self.aggregator.ingest_traces(req);
            },
            TelemetryRecord::Metrics(req) => {
                let _n: usize = self.aggregator.ingest_metrics_at(req, now);
            },
        }
    }

    /// Takes a batch that arrived at a given time, once it is known whether it
    /// could be kept. A batch that could not be kept is refused and changes
    /// nothing: its exporter will send it again.
    pub fn record_at(
        &mut self,
        record: &TelemetryRecord,
        persisted: Result<(), String>,
        now: i128,
    ) -> (r: Result<Recorded, RecordError>)
        requires
            old(self).wf(),
        ensures
            final(self).wf(),
            final(self).set_up_like(old(self)),
            final(self).aggregator@ == usage_recorded(
                old(self).aggregator@,
                old(self).persists,
                persisted is Ok,
                *record,
                now as int,
            ),
            match r {
                Err(e) => {
                    &&& old(self).persists
                    &&& persisted is Err
                    &&& *final(self) == *old(self)
                    &&& e.kind@ == kind_of(*record)
                    &&& e.cause == persisted->Err_0
                },
                Ok(done) => {
                    let before = crate::aggregator::published_agents(old(self).aggregator@);
                    let after = crate::aggregator::published_agents(final(self).aggregator@);
                    let updated = final(self).aggregator@.last_updated;
                    &&& !old(self).persists || persisted is Ok
                    &&& done.summary is Some <==> old(self).summary_enabled && before != after
                    &&& done.summary matches Some(s) ==> s.wf() && s.agents@ == after
                        && s.started_at@ == crate::clock::timestamp_of(
                        old(self).aggregator.spec_started_at(),
                    ) && crate::clock::text_in(s.last_updated) == (match updated {
                        Some(t) => Some(crate::clock::timestamp_of(t)),
                        None => None,
                    })
                    &&& crate::forward::router::delivery_views(done.deliveries@) == handed_on(
                        old(self).proxy,
                        *record,
                    )
                },
            },
    {
        if self.persists {
            if let Err(cause) = persisted {
                return Err(RecordError { kind: record.kind(), cause });
            }
        }
        let deliveries = match &self.proxy {
            Some(router) => router.notify(record),
            None => Vec::new(),
        };
        assert(self.proxy is None ==> crate::forward::router::delivery_views(deliveries@)
            =~= Seq::empty());
        if !self.summary_enabled {
            self.ingest(record, now);
            return Ok(Recorded { summary: None, deliveries });
        }
        let before = self.aggregator.snapshot();
        self.ingest(record, now);
        let after = self.aggregator.snapshot();
        let summary = if before.same_totals(&after) {
            None
        } else {
            Some(after)
        };
        Ok(Recorded { summary, deliveries })
    }

    /// What is shown of a batch, with the totals below it where they are to be
    /// shown.
    pub fn pretty(&self, record: &TelemetryRecord, summary: &Option<UsageSnapshot>) -> (r: Option<
        String,
    >)
        ensures
            crate::clock::text_in(r) == (if self.stdout_enabled {
                Some(crate::format::record_text(*record, self.color) + (match *summary {
                    Some(s) => crate::format::agent_lines(
                        s.agents.spec_rows(),
                        s.started_at@,
                        self.color,
                    ),
                    None => Seq::empty(),
                }))
            } else {
                None
            }),
    {
        if !self.stdout_enabled {
            return None;
        }
        let mut out = render(record, self.color);
        match summary {
            Some(s) => {
                push_text(&mut out, render_summary(s, self.color).as_str());
            },
            None => {
                assert(out@ =~= out@ + Seq::<char>::empty());
            },
        }
        Some(out)
    }
}

/// A batch as it arrived, and whether it could be kept.
pub struct Arrival {
    pub record: TelemetryRecord,
    pub kept: bool,
    pub now: i128,
}

/// The usage after batches.
pub open spec fn usage_after_all(
    u: crate::aggregator::model::UsageView,
    persists: bool,
    arrivals: Seq<Arrival>,
) -> crate::aggregator::model::UsageView
    decreases arrivals.len(),
{
    if arrivals.len() == 0 {
        u
    } else {
        let last = arrivals.last();
        usage_recorded(
            usage_after_all(u, persists, arrivals.drop_last()),
            persists,
            last.kept,
            last.record,
            last.now as int,
        )
    }
}

/// The batches among several that were kept.
pub open spec fn kept_among(arrivals: Seq<Arrival>) -> Seq<Arrival>
    decreases arrivals.len(),
{
    if arrivals.len() == 0 {
        arrivals
    } else if arrivals.last().kept {
        kept_among(arrivals.drop_last()).push(arrivals.last())
    } else {
        kept_among(arrivals.drop_last())
    }
}

/// Where batches are kept, the totals are those of the batches that were kept:
/// a batch that was refused, and sent again until it was kept, counts once.
pub proof fn law_only_kept_batches_count(
    u: crate::aggregator::model::UsageView,
    arrivals: Seq<Arrival>,
)
    ensures
        usage_after_all(u, true, arrivals) == usage_after_all(u, true, kept_among(arrivals)),
    decreases arrivals.len(),
{
    if arrivals.len() > 0 {
        law_only_kept_batches_count(u, arrivals.drop_last());
        if arrivals.last().kept {
            let front = kept_among(arrivals.drop_last());
            assert(front.push(arrivals.last()).drop_last() =~= front);
        }
    }
}

/// Where nothing is kept, every batch counts.
pub proof fn law_without_a_file_all_batches_count(
    u: crate::aggregator::model::UsageView,
    record: TelemetryRecord,
    kept: bool,
    now: int,
)
    ensures
        usage_recorded(u, false, kept, record, now) == usage_after(u, record, now),
{
}

/// Each kind of batch has its name.
pub proof fn law_kinds(record: TelemetryRecord)
    ensures
        record is Traces ==> kind_of(record) == "traces"@,
        record is Metrics ==> kind_of(record) == "metrics"@,
        record is Logs ==> kind_of(record) == "logs"@,
{
}

/// For a file the directory above it is made first, where its path names one; a directory
/// of daily files keeps at least one day; and without a sink nothing is opened.
pub proof fn law_what_is_opened(path: Seq<u8>, keep_days: u32)
    ensures
        plan_for(None) == PlanView::Nothing,
        plan_for(Some(SinkView::Directory { dir: path, keep_days })) == (PlanView::Rotate {
            dir: path,
            keep_days: if keep_days == 0 {
                1
            } else {
                keep_days
            },
        }),
        plan_for(Some(SinkView::File(path))) matches PlanView::Append { path: p, parent } && p
            == path && (parent is Some <==> crate::path::parent_of(path) is Some
            && crate::path::parent_of(path)->0.len() > 0) && (parent is Some ==> parent
            == crate::path::parent_of(path)),
{
}

/// Each kind of batch counts in its own way, at the time of its arrival, and a batch that
/// is to be kept and was not counts for nothing.
pub proof fn law_what_a_batch_counts(
    u: crate::aggregator::model::UsageView,
    persists: bool,
    kept: bool,
    record: TelemetryRecord,
    now: int,
)
    ensures
        persists && !kept ==> usage_recorded(u, persists, kept, record, now) == u,
        !persists || kept ==> {
            let v = usage_recorded(u, persists, kept, record, now);
            &&& record matches TelemetryRecord::Logs(req) ==> v
                == crate::aggregator::model::logs_taken(u, req.resource_logs@, now).usage
            &&& record matches TelemetryRecord::Traces(req) ==> v
                == crate::aggregator::model::traces_taken(u, req.resource_spans@).usage
            &&& record matches TelemetryRecord::Metrics(req) ==> v
                == crate::aggregator::model::metrics_taken(u, req.resource_metrics@, now).usage
        },
{
}

/// Without a router nothing is handed on; with one, each delivery goes to a lane whose
/// route lists the kind of the batch.
pub proof fn law_what_is_handed_on(proxy: Option<ProxyRouter>, record: TelemetryRecord, i: int)
    requires
        0 <= i < handed_on(proxy, record).len(),
        crate::forward::router::services_of(record).len() <= usize::MAX,
    ensures
        proxy is Some,
        ({
            let d = handed_on(proxy, record)[i];
            let lanes = proxy->0.lanes@;
            0 <= d.lane < lanes.len() && lanes[d.lane].route.signals@.contains(d.request.signal)
                && (record is Logs <==> d.request.signal == crate::config::ProxySignal::Logs)
                && (record is Traces <==> d.request.signal == crate::config::ProxySignal::Traces)
        }),
{
    let lanes = proxy->0.lanes@;
    let routes = crate::forward::router::lane_routes(lanes);
    if routes.len() > 0 {
        crate::forward::router::law_deliveries_go_where_the_kind_is_listed(routes, record, 0);
        let d = handed_on(proxy, record)[i];
        assert(routes[d.lane] == lanes[d.lane].route@);
    }
}

/// A sink shows and keeps what the settings say, and starts with nothing counted.
pub proof fn law_sinks_follow_the_settings(
    settings: Settings,
    no_color: bool,
    is_terminal: bool,
    now: i128,
    r: Sink,
)
    requires
        call_ensures(Sink::from_settings, (&settings, no_color, is_terminal, now), r),
    ensures
        r.stdout_enabled != settings.no_stdout,
        r.summary_enabled == settings.summary,
        r.persists <==> settings.log_sink is Some,
        r.color <==> !settings.no_stdout && (settings.color == crate::cli::ColorMode::Always || (
        settings.color == crate::cli::ColorMode::Auto && is_terminal && !no_color)),
        r.proxy is None,
        r.aggregator@ == crate::aggregator::model::empty_usage(),
        r.aggregator.spec_started_at() == now,
{
}

/// A batch that is to be kept and was not is refused, by its kind and with the cause, and
/// changes nothing. Any other is taken: it is counted, the totals are shown if they are to
/// be and changed, and it is handed on to each lane that takes it.
pub proof fn law_recording(
    sink: &mut Sink,
    record: TelemetryRecord,
    persisted: Result<(), String>,
    now: i128,
    r: Result<Recorded, RecordError>,
)
    requires
        call_ensures(Sink::record_at, (sink, &record, persisted, now), r),
    ensures
        r is Err <==> old(sink).persists && persisted is Err,
        r matches Err(e) ==> *final(sink) == *old(sink) && e.cause@ == persisted->Err_0@ && (
        record is Traces ==> e.kind@ == "traces"@) && (record is Metrics ==> e.kind@
            == "metrics"@) && (record is Logs ==> e.kind@ == "logs"@),
        r matches Ok(done) ==> {
            let u = old(sink).aggregator@;
            let v = final(sink).aggregator@;
            &&& record matches TelemetryRecord::Logs(req) ==> v
                == crate::aggregator::model::logs_taken(u, req.resource_logs@, now as int).usage
            &&& record matches TelemetryRecord::Traces(req) ==> v
                == crate::aggregator::model::traces_taken(u, req.resource_spans@).usage
            &&& record matches TelemetryRecord::Metrics(req) ==> v
                == crate::aggregator::model::metrics_taken(
                u,
                req.resource_metrics@,
                now as int,
            ).usage
            &&& done.summary is Some <==> old(sink).summary_enabled
                && crate::aggregator::published_agents(u) != crate::aggregator::published_agents(v)
            &&& done.summary matches Some(s) ==> s.agents@ == crate::aggregator::published_agents(v)
            &&& old(sink).proxy is None ==> done.deliveries@.len() == 0
            &&& old(sink).proxy matches Some(router) ==> crate::forward::router::delivery_views(
                done.deliveries@,
            ) == crate::forward::router::deliveries(
                crate::forward::router::lane_routes(router.lanes@),
                crate::forward::router::signal_of(record),
                crate::forward::router::services_of(record),
                router.lanes@.len(),
            )
        },
        final(sink).persists == old(sink).persists,
        final(sink).proxy == old(sink).proxy,
        final(sink).color == old(sink).color,
        final(sink).stdout_enabled == old(sink).stdout_enabled,
        final(sink).summary_enabled == old(sink).summary_enabled,
{
    if let Ok(done) = r {
        if old(sink).proxy is None {
            assert(crate::forward::router::delivery_views(done.deliveries@).len()
                == done.deliveries@.len());
        }
    }
}

/// A batch is shown with the totals below it, and nothing is shown where output is off.
pub proof fn law_showing(
    sink: Sink,
    record: TelemetryRecord,
    summary: Option<UsageSnapshot>,
    r: Option<String>,
)
    requires
        call_ensures(Sink::pretty, (&sink, &record, &summary), r),
    ensures
        r is Some <==> sink.stdout_enabled,
        r is Some && summary is None ==> r->0@ == crate::format::record_text(record, sink.color),
        r is Some && summary is Some ==> r->0@ == crate::format::record_text(record, sink.color)
            + crate::format::agent_lines(
            summary->0.agents.spec_rows(),
            summary->0.started_at@,
            sink.color,
        ),
{
    if r is Some && summary is None {
        assert(crate::format::record_text(record, sink.color) + Seq::<char>::empty()
            =~= crate::format::record_text(record, sink.color));
    }
}

/// The error of a batch that could not be kept names its kind.
pub proof fn law_record_errors_as_text(e: RecordError, r: String)
    requires
        call_ensures(RecordError::message, (&e,), r),
    ensures
        r@ == "persist "@ + e.kind@ + " batch to JSONL"@,
{
}

} // verus!
