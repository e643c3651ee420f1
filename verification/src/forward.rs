//! Forwarding: telemetry that was kept is sent on to other collectors.

pub mod client;
pub mod router;
pub mod worker;

use crate::config::ProxySignal;
use vstd::prelude::*;

verus! {

/// What is sent on of a batch: the positions of the resources that a route
/// takes.
pub enum ExportRequest {
    Logs(Vec<usize>),
    Traces(Vec<usize>),
    Metrics(Vec<usize>),
}

/// What is sent on of a batch.
#[verifier::ext_equal]
pub struct RequestView {
    pub signal: ProxySignal,
    pub resources: Seq<usize>,
}

impl View for ExportRequest {
    type V = RequestView;

    open spec fn view(&self) -> RequestView {
        match self {
            ExportRequest::Logs(r) => RequestView { signal: ProxySignal::Logs, resources: r@ },
            ExportRequest::Traces(r) => RequestView { signal: ProxySignal::Traces, resources: r@ },
            ExportRequest::Metrics(r) => RequestView {
                signal: ProxySignal::Metrics,
                resources: r@,
            },
        }
    }
}

impl ExportRequest {
    /// A request of a kind.
    pub fn of(signal: ProxySignal, resources: Vec<usize>) -> (r: ExportRequest)
        ensures
            r@ == (RequestView { signal, resources: resources@ }),
    {
        match signal {
            ProxySignal::Logs => ExportRequest::Logs(resources),
            ProxySignal::Traces => ExportRequest::Traces(resources),
            ProxySignal::Metrics => ExportRequest::Metrics(resources),
        }
    }

    /// The kind of telemetry.
    pub fn signal(&self) -> (r: ProxySignal)
        ensures
            r == self@.signal,
    {
        match self {
            ExportRequest::Logs(_) => ProxySignal::Logs,
            ExportRequest::Traces(_) => ProxySignal::Traces,
            ExportRequest::Metrics(_) => ProxySignal::Metrics,
        }
    }

    /// Whether there is nothing to send.
    pub fn is_empty(&self) -> (r: bool)
        ensures
            r == (self@.resources.len() == 0),
    {
        match self {
            ExportRequest::Logs(r) => r.len() == 0,
            ExportRequest::Traces(r) => r.len() == 0,
            ExportRequest::Metrics(r) => r.len() == 0,
        }
    }
}

/// What became of the requests of a route.
#[derive(Clone, Copy, Debug, PartialEq, Eq, Structural)]
pub struct RouteMetrics {
    /// Requests that arrived.
    pub sent_total: u64,
    /// Requests that were given up.
    pub failed_total: u64,
    /// Requests that were not even tried.
    pub dropped_total: u64,
}

/// What became of the requests of a route, and how many are waiting.
#[derive(Clone, Copy, Debug, PartialEq, Eq, Structural)]
pub struct RouteMetricsSnapshot {
    pub sent: u64,
    pub failed: u64,
    pub dropped: u64,
    pub queue_depth: u64,
}

/// The next count.
pub open spec fn next_count(n: u64, more: u64) -> u64 {
    if n + more <= u64::MAX {
        (n + more) as u64
    } else {
        (n + more - 0x1_0000_0000_0000_0000) as u64
    }
}

fn count_up(n: u64, more: u64) -> (r: u64)
    ensures
        r == next_count(n, more),
{
    let room: u64 = u64::MAX - n;
    if more <= room {
        n + more
    } else {
        more - room - 1
    }
}

impl Default for RouteMetrics {
    fn default() -> (r: RouteMetrics)
        ensures
            r == (RouteMetrics { sent_total: 0, failed_total: 0, dropped_total: 0 }),
    {
        RouteMetrics { sent_total: 0, failed_total: 0, dropped_total: 0 }
    }
}

impl RouteMetrics {
    /// The counts, with the number of requests that are waiting.
    pub fn snapshot(&self, queue_depth: u64) -> (r: RouteMetricsSnapshot)
        ensures
            r == (RouteMetricsSnapshot {
                sent: self.sent_total,
                failed: self.failed_total,
                dropped: self.dropped_total,
                queue_depth,
            }),
    {
        RouteMetricsSnapshot {
            sent: self.sent_total,
            failed: self.failed_total,
            dropped: self.dropped_total,
            queue_depth,
        }
    }

    /// A request arrived.
    pub fn count_sent(&mut self)
        ensures
            *final(self) == (RouteMetrics {
                sent_total: next_count(old(self).sent_total, 1),
                ..*old(self)
            }),
    {
        self.sent_total = count_up(self.sent_total, 1);
    }

    /// A request was given up.
    pub fn count_failed(&mut self)
        ensures
            *final(self) == (RouteMetrics {
                failed_total: next_count(old(self).failed_total, 1),
                ..*old(self)
            }),
    {
        self.failed_total = count_up(self.failed_total, 1);
    }

    /// Requests were not even tried.
    pub fn count_dropped(&mut self, n: u64)
        ensures
            *final(self) == (RouteMetrics {
                dropped_total: next_count(old(self).dropped_total, n),
                ..*old(self)
            }),
    {
        self.dropped_total = count_up(self.dropped_total, n);
    }
}

/// Counts go up one by one, and start over beyond 64 bits.
pub proof fn law_counts(n: u64, more: u64)
    ensures
        next_count(n, more) == (n + more) % 0x1_0000_0000_0000_0000,
{
}

/// A request that arrived counts as sent and nothing else, one that was given up as
/// failed, and those that were not even tried as dropped.
pub proof fn law_counting(
    a: &mut RouteMetrics,
    b: &mut RouteMetrics,
    c: &mut RouteMetrics,
    n: u64,
    r: (),
)
    requires
        call_ensures(RouteMetrics::count_sent, (a,), r),
        call_ensures(RouteMetrics::count_failed, (b,), r),
        call_ensures(RouteMetrics::count_dropped, (c, n), r),
    ensures
        old(a).sent_total < u64::MAX ==> final(a).sent_total == old(a).sent_total + 1,
        final(a).failed_total == old(a).failed_total,
        final(a).dropped_total == old(a).dropped_total,
        old(b).failed_total < u64::MAX ==> final(b).failed_total == old(b).failed_total + 1,
        final(b).sent_total == old(b).sent_total,
        final(b).dropped_total == old(b).dropped_total,
        old(c).dropped_total + n <= u64::MAX ==> final(c).dropped_total == old(c).dropped_total + n,
        final(c).sent_total == old(c).sent_total,
        final(c).failed_total == old(c).failed_total,
{
}

} // verus!
