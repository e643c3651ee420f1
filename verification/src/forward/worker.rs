//! What a route worker does next: when it tries again, and what it counts.

use super::RouteMetrics;
use vstd::prelude::*;

verus! {

/// How long queued requests may take once the worker is to stop, in
/// milliseconds.
pub const DRAIN_GRACE_MS: u64 = 5000;

/// The first pause before a request is tried again, in milliseconds.
pub const FIRST_DELAY_MS: u64 = 200;

/// The longest pause, in milliseconds.
pub const LONGEST_DELAY_MS: u64 = 30_000;

/// The pause after a number of failed attempts.
pub open spec fn delay_after(failures: nat) -> nat
    decreases failures,
{
    if failures <= 1 {
        FIRST_DELAY_MS as nat
    } else {
        let d = 2 * delay_after((failures - 1) as nat);
        if d < LONGEST_DELAY_MS {
            d
        } else {
            LONGEST_DELAY_MS as nat
        }
    }
}

/// How many times a request is tried: once, and again as often as is allowed.
pub open spec fn attempts_for(retry_max: u32) -> nat {
    if retry_max < u32::MAX {
        (retry_max + 1) as nat
    } else {
        u32::MAX as nat
    }
}

/// How far the sending of a request has come.
#[derive(Clone, Copy, Debug, PartialEq, Eq, Structural)]
pub enum SendPhase {
    /// It was not tried yet.
    Ready,
    /// It is being tried.
    Trying,
    /// It is going to be tried again.
    Pausing,
    /// It arrived or was given up.
    Over,
}

/// What happens while a request is sent.
#[derive(Clone, Copy, Debug, PartialEq, Eq, Structural)]
pub enum SendEvent {
    /// The time has come to try, unless the sending was cancelled meanwhile.
    Begin { cancelled: bool },
    /// The request arrived.
    Arrived,
    /// The request did not arrive.
    Refused,
    /// The sending was cancelled.
    Cancelled,
}

/// What is done next to send a request.
#[derive(Clone, Copy, Debug, PartialEq, Eq, Structural)]
pub enum SendAction {
    /// Tries.
    Try,
    /// Waits for a number of milliseconds and then begins again.
    Pause { ms: u64 },
    /// The request arrived.
    Sent,
    /// The request was tried as often as is allowed.
    GivenUp,
    /// The sending was cancelled.
    Abandoned { at: SendPhase },
    /// Goes on as before.
    GoOn,
}

/// The state of a sending: how often it may be tried, how often it failed, and
/// how far it has come.
#[verifier::ext_equal]
pub struct AttemptsView {
    pub limit: nat,
    pub failed: nat,
    pub phase: SendPhase,
}

/// A step of a sending. An event that does not belong to the phase changes
/// nothing.
pub open spec fn send_step(a: AttemptsView, e: SendEvent) -> (AttemptsView, SendAction) {
    let over = AttemptsView { phase: SendPhase::Over, ..a };
    match (a.phase, e) {
        (SendPhase::Ready, SendEvent::Begin { cancelled }) | (
            SendPhase::Pausing,
            SendEvent::Begin { cancelled },
        ) => if cancelled {
            (over, SendAction::Abandoned { at: SendPhase::Ready })
        } else {
            (AttemptsView { phase: SendPhase::Trying, ..a }, SendAction::Try)
        },
        (SendPhase::Ready, SendEvent::Cancelled) => (
            over,
            SendAction::Abandoned { at: SendPhase::Ready },
        ),
        (SendPhase::Trying, SendEvent::Arrived) => (over, SendAction::Sent),
        (SendPhase::Trying, SendEvent::Refused) => if a.failed + 1 < a.limit {
            (
                AttemptsView { failed: a.failed + 1, phase: SendPhase::Pausing, ..a },
                SendAction::Pause { ms: delay_after(a.failed + 1) as u64 },
            )
        } else {
            (AttemptsView { failed: a.failed + 1, ..over }, SendAction::GivenUp)
        },
        (SendPhase::Trying, SendEvent::Cancelled) => (
            over,
            SendAction::Abandoned { at: SendPhase::Trying },
        ),
        (SendPhase::Pausing, SendEvent::Cancelled) => (
            over,
            SendAction::Abandoned { at: SendPhase::Pausing },
        ),
        _ => (a, SendAction::GoOn),
    }
}

/// The attempts to send a request.
pub struct Attempts {
    limit: u32,
    failed: u32,
    delay: u64,
    phase: SendPhase,
}

impl View for Attempts {
    type V = AttemptsView;

    closed spec fn view(&self) -> AttemptsView {
        AttemptsView { limit: self.limit as nat, failed: self.failed as nat, phase: self.phase }
    }
}

impl Attempts {
    /// Whether the state is one that attempts lead to.
    pub closed spec fn wf(&self) -> bool {
        &&& self.failed <= self.limit
        &&& self.phase != SendPhase::Over ==> self.failed < self.limit
        &&& self.delay == delay_after(self.failed as nat + 1)
        &&& FIRST_DELAY_MS <= self.delay <= LONGEST_DELAY_MS
    }

    /// No attempt yet.
    pub fn new(retry_max: u32) -> (r: Attempts)
        ensures
            r.wf(),
            r@ == (AttemptsView {
                limit: attempts_for(retry_max),
                failed: 0,
                phase: SendPhase::Ready,
            }),
    {
        Attempts {
            limit: retry_max.saturating_add(1),
            failed: 0,
            delay: FIRST_DELAY_MS,
            phase: SendPhase::Ready,
        }
    }

    /// What is done next.
    pub fn on_event(&mut self, e: SendEvent) -> (r: SendAction)
        requires
            old(self).wf(),
        ensures
            final(self).wf(),
            (final(self)@, r) == send_step(old(self)@, e),
    {
        match (self.phase, e) {
            (SendPhase::Ready, SendEvent::Begin { cancelled }) | (
                SendPhase::Pausing,
                SendEvent::Begin { cancelled },
            ) => if cancelled {
                self.phase = SendPhase::Over;
                SendAction::Abandoned { at: SendPhase::Ready }
            } else {
                self.phase = SendPhase::Trying;
                SendAction::Try
            },
            (SendPhase::Ready, SendEvent::Cancelled) => {
                self.phase = SendPhase::Over;
                SendAction::Abandoned { at: SendPhase::Ready }
            },
            (SendPhase::Trying, SendEvent::Arrived) => {
                self.phase = SendPhase::Over;
                SendAction::Sent
            },
            (SendPhase::Trying, SendEvent::Refused) => {
                let pause: u64 = self.delay;
                self.failed = self.failed + 1;
                let doubled: u64 = 2 * self.delay;
                self.delay = if doubled < LONGEST_DELAY_MS {
                    doubled
                } else {
                    LONGEST_DELAY_MS
                };
                if self.failed < self.limit {
                    self.phase = SendPhase::Pausing;
                    SendAction::Pause { ms: pause }
                } else {
                    self.phase = SendPhase::Over;
                    SendAction::GivenUp
                }
            },
            (SendPhase::Trying, SendEvent::Cancelled) => {
                self.phase = SendPhase::Over;
                SendAction::Abandoned { at: SendPhase::Trying }
            },
            (SendPhase::Pausing, SendEvent::Cancelled) => {
                self.phase = SendPhase::Over;
                SendAction::Abandoned { at: SendPhase::Pausing }
            },
            _ => SendAction::GoOn,
        }
    }
}

/// Pauses double from 200 milliseconds on and are never longer than 30 seconds.
pub proof fn law_pauses_are_bounded(failures: nat)
    ensures
        FIRST_DELAY_MS <= delay_after(failures) <= LONGEST_DELAY_MS,
        delay_after(failures) <= delay_after(failures + 1),
    decreases failures,
{
    if failures > 1 {
        law_pauses_are_bounded((failures - 1) as nat);
    }
}

/// The state of a sending after events.
pub open spec fn send_run(a: AttemptsView, events: Seq<SendEvent>) -> AttemptsView
    decreases events.len(),
{
    if events.len() == 0 {
        a
    } else {
        send_step(send_run(a, events.drop_last()), events.last()).0
    }
}

/// How often a request was tried along the way.
pub open spec fn tries(a: AttemptsView, events: Seq<SendEvent>) -> nat
    decreases events.len(),
{
    if events.len() == 0 {
        0
    } else {
        let n = tries(a, events.drop_last());
        if send_step(send_run(a, events.drop_last()), events.last()).1 is Try {
            n + 1
        } else {
            n
        }
    }
}

/// A request is tried once and then at most as often as is allowed; one that is
/// given up, and was not cancelled, was tried exactly that often.
pub proof fn law_tries_are_bounded(retry_max: u32, events: Seq<SendEvent>)
    ensures
        ({
            let start = AttemptsView {
                limit: attempts_for(retry_max),
                failed: 0,
                phase: SendPhase::Ready,
            };
            let now = send_run(start, events);
            let n = tries(start, events);
            &&& n <= attempts_for(retry_max)
            &&& now.limit == start.limit
            &&& now.failed <= now.limit
            &&& now.phase != SendPhase::Over ==> now.failed < now.limit
            &&& now.phase == SendPhase::Trying ==> n == now.failed + 1
            &&& (now.phase == SendPhase::Ready || now.phase == SendPhase::Pausing) ==> n
                == now.failed
            &&& now.phase == SendPhase::Over ==> (n == now.failed || n == now.failed + 1)
            &&& (now.phase == SendPhase::Over && now.failed == now.limit) ==> n == now.limit
        }),
    decreases events.len(),
{
    if events.len() > 0 {
        law_tries_are_bounded(retry_max, events.drop_last());
    }
}

/// Cancelling ends a sending at once, whether the request is being tried or
/// waits to be tried again.
pub proof fn law_cancelling_is_immediate(a: AttemptsView)
    requires
        a.phase != SendPhase::Over,
    ensures
        send_step(a, SendEvent::Cancelled).0.phase == SendPhase::Over,
        send_step(a, SendEvent::Cancelled).1 is Abandoned,
{
}

/// What a worker is about.
#[derive(Clone, Copy, Debug, PartialEq, Eq, Structural)]
pub enum Phase {
    /// Requests are sent as they come.
    Serving,
    /// The queue is emptied before the worker stops.
    Draining,
    /// The worker has stopped.
    Stopped,
}

/// What happens to a worker.
#[derive(Clone, Copy, Debug, PartialEq, Eq, Structural)]
pub enum WorkerEvent {
    /// The worker is to stop.
    ShutdownRequested,
    /// No more requests will come.
    ChannelClosed,
    /// A request came out of the queue.
    Received { empty: bool, deadline_passed: bool },
    /// The queue is empty, while it is being emptied.
    QueueEmpty,
    /// A request arrived.
    Sent,
    /// A request was given up.
    Failed,
}

/// What a worker does next.
#[derive(Clone, Copy, Debug, PartialEq, Eq, Structural)]
pub enum WorkerAction {
    /// Waits for the next request.
    Receive,
    /// Sends the request that was received.
    Send { retry_max: u32 },
    /// Closes the queue and starts the clock for emptying it.
    StartDrain,
    /// Takes the next request out of the queue without waiting.
    TakeNext,
    /// Stops; how many requests were still sent and how many were dropped.
    Stop { drained: u64, abandoned: u64 },
}

/// The state of a worker.
#[derive(Clone, Copy, Debug, PartialEq, Eq, Structural)]
pub struct Worker {
    pub phase: Phase,
    pub retry_max: u32,
    /// Requests sent while the queue was emptied.
    pub drained: u64,
    /// Requests left over when the time was up.
    pub abandoned: u64,
}

/// A worker, and the counts of its route.
#[derive(Clone, Copy, Debug, PartialEq, Eq, Structural)]
pub struct Counted {
    pub worker: Worker,
    pub metrics: RouteMetrics,
}

/// A step of a worker. An event that does not belong to the phase changes
/// nothing.
pub open spec fn worker_step(c: Counted, e: WorkerEvent) -> (Counted, WorkerAction) {
    let w = c.worker;
    let sent = RouteMetrics {
        sent_total: super::next_count(c.metrics.sent_total, 1),
        ..c.metrics
    };
    let failed = RouteMetrics {
        failed_total: super::next_count(c.metrics.failed_total, 1),
        ..c.metrics
    };
    match w.phase {
        Phase::Serving => match e {
            WorkerEvent::ShutdownRequested | WorkerEvent::ChannelClosed => (
                Counted { worker: Worker { phase: Phase::Draining, ..w }, ..c },
                WorkerAction::StartDrain,
            ),
            WorkerEvent::Received { empty, .. } => (
                c,
                if empty {
                    WorkerAction::Receive
                } else {
                    WorkerAction::Send { retry_max: w.retry_max }
                },
            ),
            WorkerEvent::Sent => (Counted { metrics: sent, ..c }, WorkerAction::Receive),
            WorkerEvent::Failed => (Counted { metrics: failed, ..c }, WorkerAction::Receive),
            WorkerEvent::QueueEmpty => (c, WorkerAction::Receive),
        },
        Phase::Draining => match e {
            WorkerEvent::Received { empty, deadline_passed } => if empty {
                (c, WorkerAction::TakeNext)
            } else if deadline_passed {
                (
                    Counted {
                        worker: Worker { abandoned: super::next_count(w.abandoned, 1), ..w },
                        ..c
                    },
                    WorkerAction::TakeNext,
                )
            } else {
                (c, WorkerAction::Send { retry_max: 0 })
            },
            WorkerEvent::Sent => (
                Counted {
                    worker: Worker { drained: super::next_count(w.drained, 1), ..w },
                    metrics: sent,
                },
                WorkerAction::TakeNext,
            ),
            WorkerEvent::Failed => (Counted { metrics: failed, ..c }, WorkerAction::TakeNext),
            WorkerEvent::QueueEmpty => (
                Counted {
                    worker: Worker { phase: Phase::Stopped, ..w },
                    metrics: RouteMetrics {
                        dropped_total: super::next_count(c.metrics.dropped_total, w.abandoned),
                        ..c.metrics
                    },
                },
                WorkerAction::Stop { drained: w.drained, abandoned: w.abandoned },
            ),
            WorkerEvent::ShutdownRequested | WorkerEvent::ChannelClosed => (
                c,
                WorkerAction::TakeNext,
            ),
        },
        Phase::Stopped => (
            c,
            WorkerAction::Stop { drained: w.drained, abandoned: w.abandoned },
        ),
    }
}

fn plus_one(n: u64) -> (r: u64)
    ensures
        r == super::next_count(n, 1),
{
    if n < u64::MAX {
        n + 1
    } else {
        0
    }
}

impl Worker {
    /// A worker that starts.
    pub fn new(retry_max: u32) -> (r: Worker)
        ensures
            r == (Worker { phase: Phase::Serving, retry_max, drained: 0, abandoned: 0 }),
    {
        Worker { phase: Phase::Serving, retry_max, drained: 0, abandoned: 0 }
    }

    /// What the worker does next; the counts of its route are kept on the way.
    pub fn on_event(&mut self, metrics: &mut RouteMetrics, e: WorkerEvent) -> (r: WorkerAction)
        ensures
            ({
                let before = Counted { worker: *old(self), metrics: *old(metrics) };
                let after = Counted { worker: *final(self), metrics: *final(metrics) };
                (after, r) == worker_step(before, e)
            }),
    {
        match self.phase {
            Phase::Serving => match e {
                WorkerEvent::ShutdownRequested => {
                    self.phase = Phase::Draining;
                    WorkerAction::StartDrain
                },
                WorkerEvent::ChannelClosed => {
                    self.phase = Phase::Draining;
                    WorkerAction::StartDrain
                },
                WorkerEvent::Received { empty, deadline_passed: _ } => if empty {
                    WorkerAction::Receive
                } else {
                    WorkerAction::Send { retry_max: self.retry_max }
                },
                WorkerEvent::Sent => {
                    metrics.count_sent();
                    WorkerAction::Receive
                },
                WorkerEvent::Failed => {
                    metrics.count_failed();
                    WorkerAction::Receive
                },
                WorkerEvent::QueueEmpty => WorkerAction::Receive,
            },
            Phase::Draining => match e {
                WorkerEvent::Received { empty, deadline_passed } => if empty {
                    WorkerAction::TakeNext
                } else if deadline_passed {
                    self.abandoned = plus_one(self.abandoned);
                    WorkerAction::TakeNext
                } else {
                    WorkerAction::Send { retry_max: 0 }
                },
                WorkerEvent::Sent => {
                    metrics.count_sent();
                    self.drained = plus_one(self.drained);
                    WorkerAction::TakeNext
                },
                WorkerEvent::Failed => {
                    metrics.count_failed();
                    WorkerAction::TakeNext
                },
                WorkerEvent::QueueEmpty => {
                    metrics.count_dropped(self.abandoned);
                    self.phase = Phase::Stopped;
                    WorkerAction::Stop { drained: self.drained, abandoned: self.abandoned }
                },
                WorkerEvent::ShutdownRequested => WorkerAction::TakeNext,
                WorkerEvent::ChannelClosed => WorkerAction::TakeNext,
            },
            Phase::Stopped => WorkerAction::Stop {
                drained: self.drained,
                abandoned: self.abandoned,
            },
        }
    }
}

/// The worker and its counts after events.
pub open spec fn worker_run(c: Counted, events: Seq<WorkerEvent>) -> Counted
    decreases events.len(),
{
    if events.len() == 0 {
        c
    } else {
        worker_step(worker_run(c, events.drop_last()), events.last()).0
    }
}

/// Requests that are accounted for: sent, given up, dropped, or left over.
pub open spec fn accounted(c: Counted) -> int {
    c.metrics.sent_total + c.metrics.failed_total + c.metrics.dropped_total + (
    if c.worker.phase == Phase::Stopped {
        0int
    } else {
        c.worker.abandoned as int
    })
}

/// Requests that events settle while the worker runs: each that was sent or
/// given up, and each that came out of the queue when the time was up.
pub open spec fn settled_by(c: Counted, events: Seq<WorkerEvent>) -> nat
    decreases events.len(),
{
    if events.len() == 0 {
        0
    } else {
        let phase = worker_run(c, events.drop_last()).worker.phase;
        let n = settled_by(c, events.drop_last());
        match events.last() {
            WorkerEvent::Sent | WorkerEvent::Failed => if phase == Phase::Stopped {
                n
            } else {
                n + 1
            },
            WorkerEvent::Received { empty, deadline_passed } => if phase == Phase::Draining
                && !empty && deadline_passed {
                n + 1
            } else {
                n
            },
            _ => n,
        }
    }
}

/// Every request is counted once: sent, given up, dropped or left over, and
/// what is left over is dropped in the end. (As long as fewer than 2^64 are
/// counted.)
pub proof fn law_every_request_is_accounted_for(c: Counted, events: Seq<WorkerEvent>)
    requires
        c.worker.phase != Phase::Stopped,
        accounted(c) + events.len() <= u64::MAX,
    ensures
        accounted(worker_run(c, events)) == accounted(c) + settled_by(c, events),
        settled_by(c, events) <= events.len(),
    decreases events.len(),
{
    if events.len() > 0 {
        law_every_request_is_accounted_for(c, events.drop_last());
    }
}

/// A worker that has stopped stays as it is.
pub proof fn law_stopped_workers_stay(c: Counted, e: WorkerEvent)
    requires
        c.worker.phase == Phase::Stopped,
    ensures
        worker_step(c, e).0 == c,
{
}

/// While the queue is emptied nothing is tried twice: one slow request must not
/// cost the others their time.
pub proof fn law_draining_tries_once(c: Counted, e: WorkerEvent)
    requires
        c.worker.phase == Phase::Draining,
    ensures
        worker_step(c, e).1 matches WorkerAction::Send { retry_max } ==> retry_max == 0,
{
}

/// The first pause takes 200 milliseconds, and each one after it twice as long as the
/// one before, up to 30 seconds.
pub proof fn law_pauses_double(failures: nat)
    requires
        failures >= 1,
    ensures
        delay_after(1) == 200,
        2 * delay_after(failures) <= 30_000 ==> delay_after(failures + 1) == 2 * delay_after(
            failures,
        ),
        2 * delay_after(failures) > 30_000 ==> delay_after(failures + 1) == 30_000,
{
}

/// A request is tried once more than it may be tried again, and a worker that is to
/// stop has five seconds to empty its queue.
pub proof fn law_how_often_and_how_long(retry_max: u32)
    ensures
        retry_max < 0xffff_ffff ==> attempts_for(retry_max) == retry_max + 1,
        retry_max == 0xffff_ffff ==> attempts_for(retry_max) == 0xffff_ffff,
        DRAIN_GRACE_MS == 5_000,
{
}

/// A request that waits for its turn is tried when the turn comes. One that arrives is
/// done with; one that does not is tried again after a pause as long as tries are left,
/// and then given up.
pub proof fn law_how_a_request_is_sent(a: AttemptsView)
    ensures
        a.phase == SendPhase::Ready || a.phase == SendPhase::Pausing ==> {
            let (b, action) = send_step(a, SendEvent::Begin { cancelled: false });
            action == SendAction::Try && b.phase == SendPhase::Trying && b.failed == a.failed
                && b.limit == a.limit
        },
        a.phase == SendPhase::Trying ==> {
            let (b, action) = send_step(a, SendEvent::Arrived);
            action == SendAction::Sent && b.phase == SendPhase::Over && b.failed == a.failed
        },
        a.phase == SendPhase::Trying && a.failed + 1 < a.limit ==> {
            let (b, action) = send_step(a, SendEvent::Refused);
            action == SendAction::Pause { ms: delay_after(a.failed + 1) as u64 } && b.phase
                == SendPhase::Pausing && b.failed == a.failed + 1 && b.limit == a.limit
        },
        a.phase == SendPhase::Trying && a.failed + 1 >= a.limit ==> {
            let (b, action) = send_step(a, SendEvent::Refused);
            action == SendAction::GivenUp && b.phase == SendPhase::Over
        },
{
}

/// A sending that is cancelled is abandoned where it stands, and one that is over stays
/// so.
pub proof fn law_where_a_sending_is_abandoned(a: AttemptsView, e: SendEvent)
    ensures
        a.phase == SendPhase::Ready || a.phase == SendPhase::Pausing ==> send_step(
            a,
            SendEvent::Begin { cancelled: true },
        ) == (
            AttemptsView { phase: SendPhase::Over, ..a },
            SendAction::Abandoned { at: SendPhase::Ready },
        ),
        a.phase == SendPhase::Ready || a.phase == SendPhase::Trying || a.phase
            == SendPhase::Pausing ==> send_step(a, SendEvent::Cancelled) == (
            AttemptsView { phase: SendPhase::Over, ..a },
            SendAction::Abandoned { at: a.phase },
        ),
        a.phase == SendPhase::Over ==> send_step(a, e) == (a, SendAction::GoOn),
{
}

/// While a worker serves, a request is sent with all its tries, and one that holds
/// nothing is skipped. Once it is to stop it starts to empty its queue; a request that
/// is taken out in time is then tried once, and one that is too late is left over.
pub proof fn law_what_a_worker_does(c: Counted, empty: bool, deadline_passed: bool)
    ensures
        c.worker.phase == Phase::Serving ==> {
            let (d, action) = worker_step(c, WorkerEvent::Received { empty, deadline_passed });
            d == c && action == (if empty {
                WorkerAction::Receive
            } else {
                WorkerAction::Send { retry_max: c.worker.retry_max }
            })
        },
        c.worker.phase == Phase::Serving ==> {
            let (d, action) = worker_step(c, WorkerEvent::ShutdownRequested);
            d.worker.phase == Phase::Draining && d.metrics == c.metrics && action
                == WorkerAction::StartDrain && worker_step(c, WorkerEvent::ChannelClosed) == (
                d,
                action,
            )
        },
        c.worker.phase == Phase::Draining && !empty && !deadline_passed ==> worker_step(
            c,
            WorkerEvent::Received { empty, deadline_passed },
        ) == (c, WorkerAction::Send { retry_max: 0 }),
        c.worker.phase == Phase::Draining && !empty && deadline_passed && c.worker.abandoned
            < u64::MAX ==> {
            let (d, action) = worker_step(c, WorkerEvent::Received { empty, deadline_passed });
            d.worker.abandoned == c.worker.abandoned + 1 && d.metrics == c.metrics && action
                == WorkerAction::TakeNext && d.worker.phase == Phase::Draining
        },
        c.worker.phase == Phase::Draining && empty ==> worker_step(
            c,
            WorkerEvent::Received { empty, deadline_passed },
        ) == (c, WorkerAction::TakeNext),
{
}

/// A request that arrives counts as sent, one that is given up as failed, and what is
/// left over when the queue is empty as dropped.
pub proof fn law_what_a_worker_counts(c: Counted)
    requires
        c.metrics.sent_total < u64::MAX,
        c.metrics.failed_total < u64::MAX,
        c.metrics.dropped_total + c.worker.abandoned <= u64::MAX,
        c.worker.drained < u64::MAX,
        c.worker.phase != Phase::Stopped,
    ensures
        ({
            let (d, action) = worker_step(c, WorkerEvent::Sent);
            &&& d.metrics.sent_total == c.metrics.sent_total + 1
            &&& d.metrics.failed_total == c.metrics.failed_total
            &&& d.metrics.dropped_total == c.metrics.dropped_total
            &&& d.worker.phase == c.worker.phase
            &&& c.worker.phase == Phase::Draining ==> d.worker.drained == c.worker.drained + 1
                && action == WorkerAction::TakeNext
            &&& c.worker.phase == Phase::Serving ==> d.worker == c.worker && action
                == WorkerAction::Receive
        }),
        ({
            let (d, action) = worker_step(c, WorkerEvent::Failed);
            &&& d.metrics.failed_total == c.metrics.failed_total + 1
            &&& d.metrics.sent_total == c.metrics.sent_total
            &&& d.metrics.dropped_total == c.metrics.dropped_total
            &&& d.worker == c.worker
            &&& c.worker.phase == Phase::Draining ==> action == WorkerAction::TakeNext
            &&& c.worker.phase == Phase::Serving ==> action == WorkerAction::Receive
        }),
        c.worker.phase == Phase::Draining ==> {
            let (d, action) = worker_step(c, WorkerEvent::QueueEmpty);
            &&& d.worker.phase == Phase::Stopped
            &&& d.metrics.dropped_total == c.metrics.dropped_total + c.worker.abandoned
            &&& d.metrics.sent_total == c.metrics.sent_total
            &&& d.metrics.failed_total == c.metrics.failed_total
            &&& action == WorkerAction::Stop {
                drained: c.worker.drained,
                abandoned: c.worker.abandoned,
            }
        },
{
}

} // verus!
