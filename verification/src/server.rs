//! How the process runs and stops: two listeners, the signals that end them, and
//! the flush at the end.

use crate::text::push_text;
use vstd::prelude::*;

verus! {

/// The longest request that is read, in bytes, once it is decompressed.
pub const OTLP_MAX_REQUEST_BYTES: usize = 33_554_432;

/// How long requests that are under way may take once the process is to stop,
/// in milliseconds.
pub const SHUTDOWN_GRACE_MS: u64 = 10_000;

/// How many requests one connection may have under way.
pub const MAX_CONCURRENT_STREAMS: u32 = 16;

/// One of the two listeners.
#[derive(Clone, Copy, Debug, PartialEq, Eq, Structural)]
pub enum Listener {
    Grpc,
    Http,
}

/// How a listener ended.
pub enum TaskOutcome {
    /// It was stopped.
    Completed,
    /// It failed.
    Failed(String),
    /// It panicked.
    Panicked(String),
}

/// How a listener ended.
#[verifier::ext_equal]
pub enum OutcomeView {
    Completed,
    Failed(Seq<char>),
    Panicked(Seq<char>),
}

impl View for TaskOutcome {
    type V = OutcomeView;

    open spec fn view(&self) -> OutcomeView {
        match self {
            TaskOutcome::Completed => OutcomeView::Completed,
            TaskOutcome::Failed(e) => OutcomeView::Failed(e@),
            TaskOutcome::Panicked(e) => OutcomeView::Panicked(e@),
        }
    }
}

/// What was being done when something went wrong.
#[derive(Clone, Copy, Debug, PartialEq, Eq, Structural)]
pub enum Stage {
    Grpc,
    Http,
    Flush,
}

/// Something that went wrong.
pub struct ServerError {
    pub stage: Stage,
    pub cause: String,
}

/// Something that went wrong.
#[verifier::ext_equal]
pub struct Fault {
    pub stage: Stage,
    pub cause: Seq<char>,
}

impl View for ServerError {
    type V = Fault;

    open spec fn view(&self) -> Fault {
        Fault { stage: self.stage, cause: self.cause@ }
    }
}

/// The text for a stage.
pub open spec fn stage_text(s: Stage) -> Seq<char> {
    match s {
        Stage::Grpc => "gRPC task"@,
        Stage::Http => "HTTP task"@,
        Stage::Flush => "flush JSONL sink"@,
    }
}

impl ServerError {
    /// The error as text: what was being done, and what went wrong.
    pub fn message(&self) -> (r: String)
        ensures
            r@ == stage_text(self@.stage) + ": "@ + self@.cause,
    {
        let mut out = String::new();
        match self.stage {
            Stage::Grpc => push_text(&mut out, "gRPC task"),
            Stage::Http => push_text(&mut out, "HTTP task"),
            Stage::Flush => push_text(&mut out, "flush JSONL sink"),
        }
        push_text(&mut out, ": ");
        push_text(&mut out, self.cause.as_str());
        assert(out@ =~= stage_text(self@.stage) + ": "@ + self@.cause);
        out
    }
}

/// The error in a result, if any.
pub open spec fn fault_in(r: Result<(), ServerError>) -> Option<Fault> {
    match r {
        Ok(()) => None,
        Err(e) => Some(e@),
    }
}

/// The stage of a listener.
pub open spec fn stage_of(l: Listener) -> Stage {
    match l {
        Listener::Grpc => Stage::Grpc,
        Listener::Http => Stage::Http,
    }
}

/// What the end of a listener comes to.
pub open spec fn joined(l: Listener, o: OutcomeView) -> Option<Fault> {
    match o {
        OutcomeView::Completed => None,
        OutcomeView::Failed(e) => Some(Fault { stage: stage_of(l), cause: e }),
        OutcomeView::Panicked(e) => Some(
            Fault { stage: stage_of(l), cause: "task panicked: "@ + e },
        ),
    }
}

/// What the end of a listener comes to.
pub fn join_result(listener: Listener, outcome: TaskOutcome) -> (r: Result<(), ServerError>)
    ensures
        fault_in(r) == joined(listener, outcome@),
{
    let stage = match listener {
        Listener::Grpc => Stage::Grpc,
        Listener::Http => Stage::Http,
    };
    match outcome {
        TaskOutcome::Completed => Ok(()),
        TaskOutcome::Failed(cause) => Err(ServerError { stage, cause }),
        TaskOutcome::Panicked(e) => {
            let mut cause = String::new();
            push_text(&mut cause, "task panicked: ");
            push_text(&mut cause, e.as_str());
            assert(cause@ =~= "task panicked: "@ + e@);
            Err(ServerError { stage, cause })
        },
    }
}

/// The first of two errors.
pub open spec fn first_fault(a: Option<Fault>, b: Option<Fault>) -> Option<Fault> {
    match a {
        Some(_) => a,
        None => b,
    }
}

/// Adds a result to what went before: the first error stays. An error that came
/// later is returned, to be reported.
pub fn merge_task_result(
    result: &mut Result<(), ServerError>,
    next: Result<(), ServerError>,
) -> (r: Option<ServerError>)
    ensures
        fault_in(*final(result)) == first_fault(fault_in(*old(result)), fault_in(next)),
        match r {
            Some(e) => fault_in(*old(result)) is Some && fault_in(next) == Some(e@),
            None => fault_in(*old(result)) is None || fault_in(next) is None,
        },
{
    if result.is_ok() {
        *result = next;
        None
    } else {
        match next {
            Ok(()) => None,
            Err(e) => Some(e),
        }
    }
}

/// What the process is about.
#[derive(Clone, Copy, Debug, PartialEq, Eq, Structural)]
pub enum Phase {
    /// Both listeners take requests.
    Serving,
    /// The listeners take no more requests and finish those under way.
    Draining,
    /// What was kept is written out.
    Flushing,
    /// The process ends.
    Done,
}

/// What happens to the process.
pub enum ServerEvent {
    /// A listener ended.
    Ended { listener: Listener, outcome: TaskOutcome },
    /// A signal asks the process to stop.
    Signal,
    /// The time for requests under way is over.
    GraceOver,
    /// What was kept is written out, or could not be.
    Flushed(Result<(), String>),
}

/// What happens to the process.
#[verifier::ext_equal]
pub enum EventView {
    Ended { listener: Listener, outcome: OutcomeView },
    Signal,
    GraceOver,
    Flushed(Option<Seq<char>>),
}

/// The error in the result of a flush, if any.
pub open spec fn flush_failure(r: Result<(), String>) -> Option<Seq<char>> {
    match r {
        Ok(()) => None,
        Err(e) => Some(e@),
    }
}

impl View for ServerEvent {
    type V = EventView;

    open spec fn view(&self) -> EventView {
        match self {
            ServerEvent::Ended { listener, outcome } => EventView::Ended {
                listener: *listener,
                outcome: outcome@,
            },
            ServerEvent::Signal => EventView::Signal,
            ServerEvent::GraceOver => EventView::GraceOver,
            ServerEvent::Flushed(r) => EventView::Flushed(flush_failure(*r)),
        }
    }
}

/// What the process does next.
#[derive(Clone, Copy, Debug, PartialEq, Eq, Structural)]
pub enum ServerAction {
    /// Waits for what happens.
    Wait,
    /// Tells the listeners to take no more requests, and starts the clock.
    StopListeners,
    /// Writes out what was kept; `abort` says whether requests under way are
    /// given up before.
    Flush { abort: bool },
    /// Ends with the result.
    Exit,
}

/// How far a listener has come once it is to stop.
pub struct Drained {
    pub ended: bool,
    pub result: Result<(), ServerError>,
}

/// How far a listener has come once it is to stop.
#[verifier::ext_equal]
pub struct DrainedView {
    pub ended: bool,
    pub fault: Option<Fault>,
}

impl View for Drained {
    type V = DrainedView;

    open spec fn view(&self) -> DrainedView {
        DrainedView { ended: self.ended, fault: fault_in(self.result) }
    }
}

/// The state of the process.
pub struct Server {
    pub phase: Phase,
    /// Whether a signal came.
    pub signalled: bool,
    /// What the process ends with.
    pub result: Result<(), ServerError>,
    pub grpc: Drained,
    pub http: Drained,
    /// Errors that came after the first, to be reported.
    pub reports: Vec<ServerError>,
}

/// The state of the process.
#[verifier::ext_equal]
pub struct ServerView {
    pub phase: Phase,
    pub signalled: bool,
    pub result: Option<Fault>,
    pub grpc: DrainedView,
    pub http: DrainedView,
    pub reports: Seq<Fault>,
}

/// The views of errors.
pub open spec fn fault_views(s: Seq<ServerError>) -> Seq<Fault> {
    Seq::new(s.len(), |i: int| s[i]@)
}

impl View for Server {
    type V = ServerView;

    open spec fn view(&self) -> ServerView {
        ServerView {
            phase: self.phase,
            signalled: self.signalled,
            result: fault_in(self.result),
            grpc: self.grpc@,
            http: self.http@,
            reports: fault_views(self.reports@),
        }
    }
}

/// The reports after two results were merged.
pub open spec fn reported(reports: Seq<Fault>, a: Option<Fault>, b: Option<Fault>) -> Seq<Fault> {
    match b {
        Some(e) => if a is Some {
            reports.push(e)
        } else {
            reports
        },
        None => reports,
    }
}

/// The process at its start.
pub open spec fn started() -> ServerView {
    ServerView {
        phase: Phase::Serving,
        signalled: false,
        result: None,
        grpc: DrainedView { ended: false, fault: None },
        http: DrainedView { ended: false, fault: None },
        reports: Seq::empty(),
    }
}

/// A listener that ended.
pub open spec fn ended(fault: Option<Fault>) -> DrainedView {
    DrainedView { ended: true, fault }
}

/// The end of a listener while both served: the other one is to stop too.
pub open spec fn ended_first(s: ServerView, l: Listener, fault: Option<Fault>) -> ServerView {
    let t = ServerView { phase: Phase::Draining, result: fault, ..s };
    match l {
        Listener::Grpc => ServerView { grpc: ended(None), ..t },
        Listener::Http => ServerView { http: ended(None), ..t },
    }
}

/// The end of a listener that was to stop.
pub open spec fn ended_later(s: ServerView, l: Listener, fault: Option<Fault>) -> ServerView {
    match l {
        Listener::Grpc => if s.grpc.ended {
            s
        } else {
            ServerView { grpc: ended(fault), ..s }
        },
        Listener::Http => if s.http.ended {
            s
        } else {
            ServerView { http: ended(fault), ..s }
        },
    }
}

/// Both listeners have ended: their errors are taken together, that of the gRPC
/// listener before that of the HTTP listener.
pub open spec fn drained(s: ServerView) -> ServerView {
    let together = first_fault(s.grpc.fault, s.http.fault);
    let reports = reported(s.reports, s.grpc.fault, s.http.fault);
    ServerView {
        phase: Phase::Flushing,
        result: first_fault(s.result, together),
        reports: reported(reports, s.result, together),
        ..s
    }
}

/// A step of the process. An event that does not belong to the phase changes
/// nothing.
pub open spec fn server_step(s: ServerView, e: EventView) -> (ServerView, ServerAction) {
    match s.phase {
        Phase::Serving => match e {
            EventView::Ended { listener, outcome } => (
                ended_first(s, listener, joined(listener, outcome)),
                ServerAction::StopListeners,
            ),
            EventView::Signal => (
                ServerView { phase: Phase::Draining, signalled: true, ..s },
                ServerAction::StopListeners,
            ),
            _ => (s, ServerAction::Wait),
        },
        Phase::Draining => match e {
            EventView::Ended { listener, outcome } => {
                let t = ended_later(s, listener, joined(listener, outcome));
                if t.grpc.ended && t.http.ended {
                    (drained(t), ServerAction::Flush { abort: false })
                } else {
                    (t, ServerAction::Wait)
                }
            },
            EventView::Signal => if s.signalled {
                (ServerView { phase: Phase::Flushing, ..s }, ServerAction::Flush { abort: true })
            } else {
                (ServerView { signalled: true, ..s }, ServerAction::Wait)
            },
            EventView::GraceOver => (
                ServerView { phase: Phase::Flushing, ..s },
                ServerAction::Flush { abort: true },
            ),
            EventView::Flushed(_) => (s, ServerAction::Wait),
        },
        Phase::Flushing => match e {
            EventView::Flushed(failure) => {
                let fault = match failure {
                    Some(cause) => Some(Fault { stage: Stage::Flush, cause }),
                    None => None,
                };
                (
                    ServerView {
                        phase: Phase::Done,
                        result: first_fault(s.result, fault),
                        reports: reported(s.reports, s.result, fault),
                        ..s
                    },
                    ServerAction::Exit,
                )
            },
            _ => (s, ServerAction::Wait),
        },
        Phase::Done => (s, ServerAction::Exit),
    }
}

fn duplicate_result(r: &Result<(), ServerError>) -> (t: Result<(), ServerError>)
    ensures
        fault_in(t) == fault_in(*r),
{
    match r {
        Ok(()) => Ok(()),
        Err(e) => Err(ServerError { stage: e.stage, cause: e.cause.clone() }),
    }
}

impl Server {
    /// The process at its start.
    pub fn new() -> (r: Server)
        ensures
            r@ == started(),
    {
        let r = Server {
            phase: Phase::Serving,
            signalled: false,
            result: Ok(()),
            grpc: Drained { ended: false, result: Ok(()) },
            http: Drained { ended: false, result: Ok(()) },
            reports: Vec::new(),
        };
        assert(r@.reports =~= started().reports);
        r
    }

    /// Adds a result to what the process ends with.
    fn merge(&mut self, next: Result<(), ServerError>)
        ensures
            final(self)@ == (ServerView {
                result: first_fault(old(self)@.result, fault_in(next)),
                reports: reported(old(self)@.reports, old(self)@.result, fault_in(next)),
                ..old(self)@
            }),
    {
        let ghost before = self@;
        match merge_task_result(&mut self.result, next) {
            Some(e) => {
                self.reports.push(e);
                assert(self@.reports =~= before.reports.push(e@));
            },
            None => {},
        }
    }

    /// Both listeners have ended.
    fn finish_drain(&mut self)
        ensures
            final(self)@ == drained(old(self)@),
    {
        let ghost before = self@;
        let mut together = duplicate_result(&self.grpc.result);
        let http = duplicate_result(&self.http.result);
        match merge_task_result(&mut together, http) {
            Some(e) => {
                self.reports.push(e);
                assert(self@.reports =~= before.reports.push(e@));
            },
            None => {},
        }
        assert(self@.reports =~= reported(before.reports, before.grpc.fault, before.http.fault));
        self.merge(together);
        self.phase = Phase::Flushing;
        assert(self@ =~= drained(before));
    }

    /// A listener ended while the listeners were to stop.
    fn note_end(&mut self, listener: Listener, result: Result<(), ServerError>)
        ensures
            final(self)@ == ended_later(old(self)@, listener, fault_in(result)),
    {
        match listener {
            Listener::Grpc => {
                if !self.grpc.ended {
                    self.grpc = Drained { ended: true, result };
                }
            },
            Listener::Http => {
                if !self.http.ended {
                    self.http = Drained { ended: true, result };
                }
            },
        }
    }

    /// What the process does next.
    pub fn on_event(&mut self, e: ServerEvent) -> (r: ServerAction)
        ensures
            (final(self)@, r) == server_step(old(self)@, e@),
    {
        let ghost before = self@;
        match self.phase {
            Phase::Serving => match e {
                ServerEvent::Ended { listener, outcome } => {
                    self.result = join_result(listener, outcome);
                    match listener {
                        Listener::Grpc => {
                            self.grpc = Drained { ended: true, result: Ok(()) };
                        },
                        Listener::Http => {
                            self.http = Drained { ended: true, result: Ok(()) };
                        },
                    }
                    self.phase = Phase::Draining;
                    assert(self@ =~= ended_first(before, listener, joined(listener, outcome@)));
                    ServerAction::StopListeners
                },
                ServerEvent::Signal => {
                    self.signalled = true;
                    self.phase = Phase::Draining;
                    ServerAction::StopListeners
                },
                _ => ServerAction::Wait,
            },
            Phase::Draining => match e {
                ServerEvent::Ended { listener, outcome } => {
                    let result = join_result(listener, outcome);
                    self.note_end(listener, result);
                    if self.grpc.ended && self.http.ended {
                        self.finish_drain();
                        ServerAction::Flush { abort: false }
                    } else {
                        ServerAction::Wait
                    }
                },
                ServerEvent::Signal => if self.signalled {
                    self.phase = Phase::Flushing;
                    ServerAction::Flush { abort: true }
                } else {
                    self.signalled = true;
                    ServerAction::Wait
                },
                ServerEvent::GraceOver => {
                    self.phase = Phase::Flushing;
                    ServerAction::Flush { abort: true }
                },
                ServerEvent::Flushed(_) => ServerAction::Wait,
            },
            Phase::Flushing => match e {
                ServerEvent::Flushed(result) => {
                    let fault = match result {
                        Ok(()) => Ok(()),
                        Err(cause) => Err(ServerError { stage: Stage::Flush, cause }),
                    };
                    self.merge(fault);
                    self.phase = Phase::Done;
                    ServerAction::Exit
                },
                _ => ServerAction::Wait,
            },
            Phase::Done => ServerAction::Exit,
        }
    }

    /// The errors to report, which are then forgotten.
    pub fn take_reports(&mut self) -> (r: Vec<ServerError>)
        ensures
            r@ == old(self).reports@,
            final(self)@ == (ServerView { reports: Seq::empty(), ..old(self)@ }),
    {
        let mut r: Vec<ServerError> = Vec::new();
        std::mem::swap(&mut r, &mut self.reports);
        assert(self@.reports =~= Seq::<Fault>::empty());
        r
    }
}

/// The process after events.
pub open spec fn server_run(s: ServerView, events: Seq<EventView>) -> ServerView
    decreases events.len(),
{
    if events.len() == 0 {
        s
    } else {
        server_step(server_run(s, events.drop_last()), events.last()).0
    }
}

/// How often what was kept is written out along the way.
pub open spec fn flushes(s: ServerView, events: Seq<EventView>) -> nat
    decreases events.len(),
{
    if events.len() == 0 {
        0
    } else {
        let n = flushes(s, events.drop_last());
        if server_step(server_run(s, events.drop_last()), events.last()).1 is Flush {
            n + 1
        } else {
            n
        }
    }
}

/// The process never ends without writing out what was kept, and does so once.
pub proof fn law_one_flush_before_the_end(events: Seq<EventView>)
    ensures
        ({
            let phase = server_run(started(), events).phase;
            flushes(started(), events) == (if phase == Phase::Flushing || phase == Phase::Done {
                1nat
            } else {
                0nat
            })
        }),
    decreases events.len(),
{
    if events.len() > 0 {
        law_one_flush_before_the_end(events.drop_last());
    }
}

/// The first error is the one that the process ends with, whatever happens
/// later.
pub proof fn law_the_first_error_stays(s: ServerView, events: Seq<EventView>)
    requires
        s.result is Some,
        s.phase != Phase::Serving,
    ensures
        server_run(s, events).result == s.result,
        server_run(s, events).phase != Phase::Serving,
    decreases events.len(),
{
    if events.len() > 0 {
        law_the_first_error_stays(s, events.drop_last());
    }
}

/// A listener that fails stops the other one, and its error is kept.
pub proof fn law_a_failed_listener_ends_the_process(
    s: ServerView,
    listener: Listener,
    cause: Seq<char>,
)
    requires
        s.phase == Phase::Serving,
    ensures
        ({
            let (t, action) = server_step(
                s,
                EventView::Ended { listener, outcome: OutcomeView::Failed(cause) },
            );
            &&& action == ServerAction::StopListeners
            &&& t.phase == Phase::Draining
            &&& t.result == Some(Fault { stage: stage_of(listener), cause })
        }),
{
}

/// One signal lets requests under way finish; a second one gives them up, and
/// so does the end of the time that they have. What was kept is written out all
/// the same.
pub proof fn law_stopping_is_bounded(s: ServerView)
    requires
        s.phase == Phase::Serving,
        !s.signalled,
    ensures
        ({
            let (once, first) = server_step(s, EventView::Signal);
            let (twice, second) = server_step(once, EventView::Signal);
            let (late, over) = server_step(once, EventView::GraceOver);
            &&& first == ServerAction::StopListeners
            &&& second == ServerAction::Flush { abort: true }
            &&& over == ServerAction::Flush { abort: true }
            &&& twice.phase == Phase::Flushing
            &&& late.phase == Phase::Flushing
        }),
{
}

/// Requests of up to 32 mebibytes are read, a connection has up to 16 of them under way,
/// and those under way when the process is to stop have ten seconds.
pub proof fn law_limits()
    ensures
        OTLP_MAX_REQUEST_BYTES == 32 * 1024 * 1024,
        MAX_CONCURRENT_STREAMS == 16,
        SHUTDOWN_GRACE_MS == 10 * 1000,
{
}

/// A listener that was stopped is no error; one that failed, or panicked, is one of that
/// listener, with what went wrong.
pub proof fn law_errors_name_their_listener(cause: Seq<char>)
    ensures
        joined(Listener::Grpc, OutcomeView::Completed) is None,
        joined(Listener::Http, OutcomeView::Completed) is None,
        joined(Listener::Grpc, OutcomeView::Failed(cause)) == Some(
            Fault { stage: Stage::Grpc, cause },
        ),
        joined(Listener::Http, OutcomeView::Failed(cause)) == Some(
            Fault { stage: Stage::Http, cause },
        ),
        joined(Listener::Grpc, OutcomeView::Panicked(cause)) == Some(
            Fault { stage: Stage::Grpc, cause: "task panicked: "@ + cause },
        ),
        joined(Listener::Http, OutcomeView::Panicked(cause)) == Some(
            Fault { stage: Stage::Http, cause: "task panicked: "@ + cause },
        ),
        stage_text(Stage::Grpc) == "gRPC task"@,
        stage_text(Stage::Http) == "HTTP task"@,
        stage_text(Stage::Flush) == "flush JSONL sink"@,
{
}

/// The first signal stops the listeners, and a second one, or the end of the time that
/// they have, gives up what is under way. A process that serves pays no heed to anything
/// else but the end of a listener.
pub proof fn law_signals(s: ServerView)
    ensures
        s.phase == Phase::Serving ==> {
            let (t, action) = server_step(s, EventView::Signal);
            action == ServerAction::StopListeners && t.phase == Phase::Draining && t.signalled
                && t.result == s.result && t.reports == s.reports
        },
        s.phase == Phase::Draining && !s.signalled ==> {
            let (t, action) = server_step(s, EventView::Signal);
            action == ServerAction::Wait && t.phase == Phase::Draining && t.signalled
        },
        s.phase == Phase::Draining && s.signalled ==> {
            let (t, action) = server_step(s, EventView::Signal);
            action == ServerAction::Flush { abort: true } && t.phase == Phase::Flushing && t.result
                == s.result
        },
        s.phase == Phase::Draining ==> {
            let (t, action) = server_step(s, EventView::GraceOver);
            action == ServerAction::Flush { abort: true } && t.phase == Phase::Flushing && t.result
                == s.result
        },
        s.phase == Phase::Serving ==> server_step(s, EventView::GraceOver) == (
            s,
            ServerAction::Wait,
        ),
{
}

/// The end of one listener stops the other, and what was kept is written out once both
/// have ended. The process ends with the first error there was: that of the listener that
/// ended first, then that of the other.
pub proof fn law_the_end_of_the_listeners(
    first: Listener,
    second: Listener,
    a: OutcomeView,
    b: OutcomeView,
)
    requires
        first != second,
    ensures
        ({
            let (s, stop) = server_step(
                started(),
                EventView::Ended { listener: first, outcome: a },
            );
            let (t, flush) = server_step(s, EventView::Ended { listener: second, outcome: b });
            &&& stop == ServerAction::StopListeners
            &&& s.phase == Phase::Draining
            &&& s.result == joined(first, a)
            &&& flush == ServerAction::Flush { abort: false }
            &&& t.phase == Phase::Flushing
            &&& joined(first, a) is Some ==> t.result == joined(first, a)
            &&& joined(first, a) is None ==> t.result == joined(second, b)
        }),
{
}

/// Once what was kept is written out the process ends. It ends with the error of that
/// only where there was none before.
pub proof fn law_the_end_of_the_process(s: ServerView, failure: Option<Seq<char>>)
    requires
        s.phase == Phase::Flushing,
    ensures
        ({
            let (t, action) = server_step(s, EventView::Flushed(failure));
            &&& action == ServerAction::Exit
            &&& t.phase == Phase::Done
            &&& s.result is Some ==> t.result == s.result
            &&& s.result is None && failure is None ==> t.result is None
            &&& s.result is None && failure is Some ==> t.result == Some(
                Fault { stage: Stage::Flush, cause: failure->0 },
            )
            &&& s.result is Some && failure is Some ==> t.reports == s.reports.push(
                Fault { stage: Stage::Flush, cause: failure->0 },
            )
        }),
{
}

/// The first error stays, and one that comes later is reported.
pub proof fn law_merging_results(
    result: &mut Result<(), ServerError>,
    next: Result<(), ServerError>,
    r: Option<ServerError>,
)
    requires
        call_ensures(merge_task_result, (result, next), r),
    ensures
        *old(result) is Err ==> *final(result) is Err && (*final(result))->Err_0@ == (*old(result))->Err_0@,
        *old(result) is Ok && next is Ok ==> *final(result) is Ok,
        *old(result) is Ok && next is Err ==> *final(result) is Err && (*final(result))->Err_0@
            == next->Err_0@,
        r is Some <==> *old(result) is Err && next is Err,
        r matches Some(e) ==> e@ == next->Err_0@,
{
}

/// An error is reported by what was being done and what went wrong.
pub proof fn law_errors_as_text(e: ServerError, r: String)
    requires
        call_ensures(ServerError::message, (&e,), r),
    ensures
        e.stage == Stage::Grpc ==> r@ == "gRPC task"@ + ": "@ + e.cause@,
        e.stage == Stage::Http ==> r@ == "HTTP task"@ + ": "@ + e.cause@,
        e.stage == Stage::Flush ==> r@ == "flush JSONL sink"@ + ": "@ + e.cause@,
{
}

} // verus!
