//! Which route takes which resource of a batch.

use super::{ExportRequest, RequestView, RouteMetrics, RouteMetricsSnapshot};
use crate::cli::headers::EnvVar;
use crate::cli::routes::{ProxyRoute, RouteView};
use crate::cli::Cli;
use crate::config::{Config, ProxySignal};
use crate::format::TelemetryRecord;
use crate::otlp::service_name;
use vstd::prelude::*;

verus! {

/// A route and what became of its requests.
pub struct RouteLane {
    pub route: ProxyRoute,
    pub metrics: RouteMetrics,
}

/// A request and the lane that takes it.
pub struct Delivery {
    pub lane: usize,
    pub request: ExportRequest,
}

/// A request and the lane that takes it.
#[verifier::ext_equal]
pub struct DeliveryView {
    pub lane: int,
    pub request: RequestView,
}

impl View for Delivery {
    type V = DeliveryView;

    open spec fn view(&self) -> DeliveryView {
        DeliveryView { lane: self.lane as int, request: self.request@ }
    }
}

/// The views of deliveries.
pub open spec fn delivery_views(s: Seq<Delivery>) -> Seq<DeliveryView> {
    Seq::new(s.len(), |i: int| s[i]@)
}

/// The views of the routes of lanes.
pub open spec fn lane_routes(s: Seq<RouteLane>) -> Seq<RouteView> {
    Seq::new(s.len(), |i: int| s[i].route@)
}

/// What became of a request that was handed to the queue of its lane.
#[derive(Clone, Copy, Debug, PartialEq, Eq, Structural)]
pub enum SendOutcome {
    Queued,
    Full,
    Closed,
}

/// The lane that a service belongs to: the last one whose route names it.
pub open spec fn owner(routes: Seq<RouteView>, service: Seq<char>) -> Option<int>
    decreases routes.len(),
{
    if routes.len() == 0 {
        None
    } else if routes.last().service_names.contains(service) {
        Some(routes.len() - 1)
    } else {
        owner(routes.drop_last(), service)
    }
}

/// Whether a lane takes the telemetry of a service: the service and the first
/// service of the lane belong to the same lane.
pub open spec fn takes(routes: Seq<RouteView>, lane: int, service: Seq<char>) -> bool {
    &&& routes[lane].service_names.len() > 0
    &&& owner(routes, service) is Some
    &&& owner(routes, service) == owner(routes, routes[lane].service_names[0])
}

/// The services of the resources of a batch.
pub open spec fn services_of(record: TelemetryRecord) -> Seq<Seq<char>> {
    match record {
        TelemetryRecord::Logs(req) => Seq::new(
            req.resource_logs@.len(),
            |i: int| crate::otlp::service_of(req.resource_logs@[i].resource),
        ),
        TelemetryRecord::Traces(req) => Seq::new(
            req.resource_spans@.len(),
            |i: int| crate::otlp::service_of(req.resource_spans@[i].resource),
        ),
        TelemetryRecord::Metrics(req) => Seq::new(
            req.resource_metrics@.len(),
            |i: int| crate::otlp::service_of(req.resource_metrics@[i].resource),
        ),
    }
}

/// The kind of a batch.
pub open spec fn signal_of(record: TelemetryRecord) -> ProxySignal {
    match record {
        TelemetryRecord::Logs(_) => ProxySignal::Logs,
        TelemetryRecord::Traces(_) => ProxySignal::Traces,
        TelemetryRecord::Metrics(_) => ProxySignal::Metrics,
    }
}

/// The positions of the resources that a lane takes, in order.
pub open spec fn taken(routes: Seq<RouteView>, lane: int, services: Seq<Seq<char>>) -> Seq<usize>
    decreases services.len(),
{
    if services.len() == 0 {
        Seq::empty()
    } else {
        let front = taken(routes, lane, services.drop_last());
        if takes(routes, lane, services.last()) {
            front.push((services.len() - 1) as usize)
        } else {
            front
        }
    }
}

/// What the first `n` lanes take of a batch: each lane that takes this kind of
/// telemetry gets the resources that are its own, if there are any.
pub open spec fn deliveries(
    routes: Seq<RouteView>,
    signal: ProxySignal,
    services: Seq<Seq<char>>,
    n: nat,
) -> Seq<DeliveryView>
    decreases n,
{
    if n == 0 {
        Seq::empty()
    } else {
        let lane = n - 1;
        let front = deliveries(routes, signal, services, lane as nat);
        let resources = taken(routes, lane, services);
        if routes[lane].signals.contains(signal) && resources.len() > 0 {
            front.push(DeliveryView { lane, request: RequestView { signal, resources } })
        } else {
            front
        }
    }
}

impl TelemetryRecord {
    /// The kind of the batch.
    pub fn signal(&self) -> (r: ProxySignal)
        ensures
            r == signal_of(*self),
    {
        match self {
            TelemetryRecord::Logs(_) => ProxySignal::Logs,
            TelemetryRecord::Traces(_) => ProxySignal::Traces,
            TelemetryRecord::Metrics(_) => ProxySignal::Metrics,
        }
    }

    /// The services of the resources of the batch.
    fn services(&self) -> (r: Vec<String>)
        ensures
            crate::text::texts(r@) == services_of(*self),
    {
        let mut out: Vec<String> = Vec::new();
        match self {
            TelemetryRecord::Logs(req) => {
                let resources = &req.resource_logs;
                for i in 0..resources.len()
                    invariant
                        out@.len() == i,
                        forall|j: int|
                            0 <= j < i ==> #[trigger] out@[j]@ == crate::otlp::service_of(
                                resources@[j].resource,
                            ),
                {
                    out.push(service_name(&resources[i].resource));
                }
            },
            TelemetryRecord::Traces(req) => {
                let resources = &req.resource_spans;
                for i in 0..resources.len()
                    invariant
                        out@.len() == i,
                        forall|j: int|
                            0 <= j < i ==> #[trigger] out@[j]@ == crate::otlp::service_of(
                                resources@[j].resource,
                            ),
                {
                    out.push(service_name(&resources[i].resource));
                }
            },
            TelemetryRecord::Metrics(req) => {
                let resources = &req.resource_metrics;
                for i in 0..resources.len()
                    invariant
                        out@.len() == i,
                        forall|j: int|
                            0 <= j < i ==> #[trigger] out@[j]@ == crate::otlp::service_of(
                                resources@[j].resource,
                            ),
                {
                    out.push(service_name(&resources[i].resource));
                }
            },
        }
        assert(crate::text::texts(out@) =~= services_of(*self));
        out
    }
}

/// Whether a route names a service.
fn names(route: &ProxyRoute, service: &String) -> (r: bool)
    ensures
        r == route@.service_names.contains(service@),
{
    let ghost all = route@.service_names;
    for i in 0..route.service_names.len()
        invariant
            all == route@.service_names,
            forall|j: int| 0 <= j < i ==> #[trigger] all[j] != service@,
    {
        assert(all[i as int] == route.service_names@[i as int]@);
        if route.service_names[i] == *service {
            return true;
        }
    }
    false
}

/// Hands batches out to lanes.
pub struct ProxyRouter {
    pub lanes: Vec<RouteLane>,
}

impl ProxyRouter {
    /// A router for the given lanes.
    pub fn new(lanes: Vec<RouteLane>) -> (r: ProxyRouter)
        ensures
            r.lanes == lanes,
    {
        ProxyRouter { lanes }
    }

    /// The lane that a service belongs to.
    fn find_owner(&self, service: &String) -> (r: Option<usize>)
        ensures
            match owner(lane_routes(self.lanes@), service@) {
                Some(i) => r is Some && r->0 == i,
                None => r is None,
            },
    {
        let ghost routes = lane_routes(self.lanes@);
        let mut n: usize = self.lanes.len();
        assert(routes.take(n as int) =~= routes);
        while n > 0
            invariant
                n <= self.lanes@.len(),
                routes == lane_routes(self.lanes@),
                owner(routes, service@) == owner(routes.take(n as int), service@),
            decreases n,
        {
            assert(routes.take(n as int).drop_last() =~= routes.take(n - 1));
            assert(routes.take(n as int).last() == self.lanes@[n - 1].route@);
            if names(&self.lanes[n - 1].route, service) {
                return Some(n - 1);
            }
            n = n - 1;
        }
        None
    }

    /// The positions of the resources that a lane takes.
    fn take(&self, lane: usize, services: &Vec<String>) -> (r: Vec<usize>)
        requires
            lane < self.lanes@.len(),
        ensures
            r@ == taken(lane_routes(self.lanes@), lane as int, crate::text::texts(services@)),
    {
        let ghost routes = lane_routes(self.lanes@);
        let ghost all = crate::text::texts(services@);
        let mut out: Vec<usize> = Vec::new();
        let mine = &self.lanes[lane].route.service_names;
        if mine.len() == 0 {
            proof {
                lemma_nothing_taken(routes, lane as int, all);
                assert(out@ =~= Seq::<usize>::empty());
            }
            return out;
        }
        let home = self.find_owner(&mine[0]);
        assert(routes[lane as int].service_names[0] == mine@[0]@);
        assert(out@ =~= taken(routes, lane as int, all.take(0)));
        for i in 0..services.len()
            invariant
                lane < self.lanes@.len(),
                routes == lane_routes(self.lanes@),
                all == crate::text::texts(services@),
                routes[lane as int].service_names.len() > 0,
                match owner(routes, routes[lane as int].service_names[0]) {
                    Some(i) => home is Some && home->0 == i,
                    None => home is None,
                },
                out@ == taken(routes, lane as int, all.take(i as int)),
        {
            assert(all.take(i + 1).drop_last() =~= all.take(i as int));
            assert(all[i as int] == services@[i as int]@);
            match self.find_owner(&services[i]) {
                Some(o) => {
                    match home {
                        Some(h) => {
                            if o == h {
                                out.push(i);
                            }
                        },
                        None => {},
                    }
                },
                None => {},
            }
        }
        assert(all.take(all.len() as int) =~= all);
        out
    }

    /// What each lane takes of a batch. Resources of services that no route
    /// names go nowhere.
    pub fn notify(&self, record: &TelemetryRecord) -> (r: Vec<Delivery>)
        ensures
            delivery_views(r@) == deliveries(
                lane_routes(self.lanes@),
                signal_of(*record),
                services_of(*record),
                self.lanes@.len(),
            ),
    {
        let signal = record.signal();
        let services = record.services();
        let ghost routes = lane_routes(self.lanes@);
        let ghost all = services_of(*record);
        let mut out: Vec<Delivery> = Vec::new();
        assert(delivery_views(out@) =~= deliveries(routes, signal, all, 0));
        for i in 0..self.lanes.len()
            invariant
                signal == signal_of(*record),
                routes == lane_routes(self.lanes@),
                all == services_of(*record),
                all == crate::text::texts(services@),
                delivery_views(out@) == deliveries(routes, signal, all, i as nat),
        {
            let ghost before = delivery_views(out@);
            if self.lanes[i].route.accepts_signal(signal) {
                let resources = self.take(i, &services);
                if resources.len() > 0 {
                    let request = ExportRequest::of(signal, resources);
                    out.push(Delivery { lane: i, request });
                    assert(delivery_views(out@) =~= before.push(
                        DeliveryView { lane: i as int, request: request@ },
                    ));
                }
            }
        }
        out
    }

    /// Takes note of what became of a request. A request that found no room or
    /// no worker is dropped. The number of drops so far is returned where it is
    /// to be reported: for a full queue at each power of two, for a closed one
    /// always.
    pub fn settle(&mut self, lane: usize, outcome: SendOutcome) -> (r: Option<u64>)
        requires
            lane < old(self).lanes@.len(),
        ensures
            final(self).lanes@.len() == old(self).lanes@.len(),
            forall|i: int|
                0 <= i < old(self).lanes@.len() ==> (#[trigger] final(self).lanes@[i]).route
                    == old(self).lanes@[i].route,
            forall|i: int|
                0 <= i < old(self).lanes@.len() && i != lane ==> (
                #[trigger] final(self).lanes@[i]).metrics == old(self).lanes@[i].metrics,
            ({
                let before = old(self).lanes@[lane as int].metrics;
                let after = final(self).lanes@[lane as int].metrics;
                let dropped = super::next_count(before.dropped_total, 1);
                match outcome {
                    SendOutcome::Queued => after == before && r is None,
                    SendOutcome::Full => after == (RouteMetrics {
                        dropped_total: dropped,
                        ..before
                    }) && r == (if power_of_two(dropped as nat) {
                        Some(dropped)
                    } else {
                        None
                    }),
                    SendOutcome::Closed => after == (RouteMetrics {
                        dropped_total: dropped,
                        ..before
                    }) && r == Some(dropped),
                }
            }),
    {
        if outcome == SendOutcome::Queued {
            return None;
        }
        let mut metrics = self.lanes[lane].metrics;
        metrics.count_dropped(1);
        self.lanes[lane].metrics = metrics;
        let dropped: u64 = metrics.dropped_total;
        if outcome == SendOutcome::Closed || is_power_of_two(dropped) {
            Some(dropped)
        } else {
            None
        }
    }

    /// What became of the requests of each route, given how much room the queue
    /// of each lane has in all and how much of it is free.
    pub fn snapshot(&self, queues: &Vec<QueueRoom>) -> (r: Vec<(String, RouteMetricsSnapshot)>)
        requires
            queues@.len() == self.lanes@.len(),
        ensures
            r@.len() == self.lanes@.len(),
            forall|i: int|
                0 <= i < r@.len() ==> {
                    let lane = self.lanes@[i];
                    &&& (#[trigger] r@[i]).0@ == lane.route.name@
                    &&& r@[i].1 == (RouteMetricsSnapshot {
                        sent: lane.metrics.sent_total,
                        failed: lane.metrics.failed_total,
                        dropped: lane.metrics.dropped_total,
                        queue_depth: waiting(queues@[i]),
                    })
                },
    {
        let mut out: Vec<(String, RouteMetricsSnapshot)> = Vec::new();
        for i in 0..self.lanes.len()
            invariant
                queues@.len() == self.lanes@.len(),
                out@.len() == i,
                forall|j: int|
                    0 <= j < i ==> {
                        let lane = self.lanes@[j];
                        &&& (#[trigger] out@[j]).0@ == lane.route.name@
                        &&& out@[j].1 == (RouteMetricsSnapshot {
                            sent: lane.metrics.sent_total,
                            failed: lane.metrics.failed_total,
                            dropped: lane.metrics.dropped_total,
                            queue_depth: waiting(queues@[j]),
                        })
                    },
        {
            let lane = &self.lanes[i];
            let depth: u64 = if queues[i].free <= queues[i].capacity {
                (queues[i].capacity - queues[i].free) as u64
            } else {
                0
            };
            out.push((lane.route.name.clone(), lane.metrics.snapshot(depth)));
        }
        out
    }
}

/// The room in a queue.
#[derive(Clone, Copy, Debug, PartialEq, Eq, Structural)]
pub struct QueueRoom {
    pub capacity: usize,
    pub free: usize,
}

/// How many requests wait in a queue.
pub open spec fn waiting(q: QueueRoom) -> u64 {
    if q.free <= q.capacity {
        (q.capacity - q.free) as u64
    } else {
        0
    }
}

/// Whether a number is a power of two.
pub open spec fn power_of_two(n: nat) -> bool
    decreases n,
{
    n == 1 || (n > 1 && n % 2 == 0 && power_of_two(n / 2))
}

fn is_power_of_two(n: u64) -> (r: bool)
    ensures
        r == power_of_two(n as nat),
{
    let mut x: u64 = n;
    while x > 1 && x % 2 == 0
        invariant
            power_of_two(n as nat) == power_of_two(x as nat),
        decreases x,
    {
        x = x / 2;
    }
    x == 1
}

proof fn lemma_nothing_taken(routes: Seq<RouteView>, lane: int, services: Seq<Seq<char>>)
    requires
        routes[lane].service_names.len() == 0,
    ensures
        taken(routes, lane, services).len() == 0,
    decreases services.len(),
{
    if services.len() > 0 {
        lemma_nothing_taken(routes, lane, services.drop_last());
    }
}

proof fn lemma_owner(routes: Seq<RouteView>, service: Seq<char>)
    ensures
        match owner(routes, service) {
            Some(i) => 0 <= i < routes.len() && routes[i].service_names.contains(service),
            None => forall|i: int|
                0 <= i < routes.len() ==> !(#[trigger] routes[i]).service_names.contains(service),
        },
    decreases routes.len(),
{
    if routes.len() > 0 && !routes.last().service_names.contains(service) {
        lemma_owner(routes.drop_last(), service);
        if owner(routes.drop_last(), service) is None {
            assert forall|i: int| 0 <= i < routes.len() implies !(
            #[trigger] routes[i]).service_names.contains(service) by {
                if i < routes.len() - 1 {
                    assert(routes.drop_last()[i] == routes[i]);
                }
            }
        }
    }
}

/// Where no two lanes name the same service, a lane takes exactly the services
/// that its route names.
pub proof fn law_lanes_take_what_they_name(routes: Seq<RouteView>, lane: int, service: Seq<char>)
    requires
        crate::cli::routes::separate(routes),
        0 <= lane < routes.len(),
    ensures
        takes(routes, lane, service) == routes[lane].service_names.contains(service),
{
    lemma_owner(routes, service);
    if routes[lane].service_names.len() > 0 {
        let first = routes[lane].service_names[0];
        lemma_owner(routes, first);
        assert(routes[lane].service_names.contains(first));
    } else if routes[lane].service_names.contains(service) {
        let i = choose|i: int|
            0 <= i < routes[lane].service_names.len() && routes[lane].service_names[i] == service;
    }
}

/// A resource is sent to one lane at most.
pub proof fn law_no_resource_is_sent_twice(
    routes: Seq<RouteView>,
    a: int,
    b: int,
    service: Seq<char>,
)
    requires
        crate::cli::routes::separate(routes),
        0 <= a < routes.len(),
        0 <= b < routes.len(),
        takes(routes, a, service),
        takes(routes, b, service),
    ensures
        a == b,
{
    law_lanes_take_what_they_name(routes, a, service);
    law_lanes_take_what_they_name(routes, b, service);
}

/// A resource without a service name, or of a service that no route names, goes
/// nowhere.
pub proof fn law_unnamed_services_go_nowhere(routes: Seq<RouteView>, lane: int, service: Seq<char>)
    requires
        0 <= lane < routes.len(),
        forall|i: int|
            0 <= i < routes.len() ==> !(#[trigger] routes[i]).service_names.contains(service),
    ensures
        !takes(routes, lane, service),
{
    lemma_owner(routes, service);
}

/// With settings that are accepted, every lane takes exactly the services that
/// its route names, no resource is sent twice, and a resource without a service
/// name goes nowhere.
pub proof fn law_accepted_settings_route_soundly(
    cli: Cli,
    config: Config,
    home: Option<Seq<u8>>,
    env: Seq<EnvVar>,
    service: Seq<char>,
    a: int,
    b: int,
)
    requires
        crate::cli::merged(cli, config, home, env) is Ok,
        crate::cli::merged(cli, config, home, env)->Ok_0.proxy is Some,
    ensures
        ({
            let routes = crate::cli::merged(cli, config, home, env)->Ok_0.proxy->0.routes;
            &&& 0 <= a < routes.len() ==> takes(routes, a, service)
                == routes[a].service_names.contains(service)
            &&& 0 <= a < routes.len() && 0 <= b < routes.len() && takes(routes, a, service)
                && takes(routes, b, service) ==> a == b
            &&& 0 <= a < routes.len() && service.len() == 0 ==> !takes(routes, a, service)
        }),
{
    let routes = crate::cli::merged(cli, config, home, env)->Ok_0.proxy->0.routes;
    crate::cli::routes::law_services_have_one_route(routes);
    crate::cli::routes::law_routes_are_sound(
        crate::cli::anthropic_args(cli),
        crate::cli::openai_args(cli),
        crate::config::table_of(config).routes,
        env,
    );
    if 0 <= a < routes.len() {
        law_lanes_take_what_they_name(routes, a, service);
        if service.len() == 0 && takes(routes, a, service) {
            let names = routes[a].service_names;
            assert(crate::cli::routes::sound_route(routes[a]));
            assert(names[names.index_of(service)].len() > 0);
        }
        if 0 <= b < routes.len() && takes(routes, a, service) && takes(routes, b, service) {
            law_no_resource_is_sent_twice(routes, a, b, service);
        }
    }
}

/// What a lane gets is in the order of the batch, and is what the lane takes:
/// nothing else, nothing twice.
pub proof fn law_taken_in_order(routes: Seq<RouteView>, lane: int, services: Seq<Seq<char>>)
    requires
        services.len() <= usize::MAX,
    ensures
        forall|i: int, j: int|
            0 <= i < j < taken(routes, lane, services).len() ==> #[trigger] taken(
                routes,
                lane,
                services,
            )[i] < #[trigger] taken(routes, lane, services)[j],
        forall|i: int|
            0 <= i < taken(routes, lane, services).len() ==> (#[trigger] taken(
                routes,
                lane,
                services,
            )[i]) < services.len() && takes(
                routes,
                lane,
                services[taken(routes, lane, services)[i] as int],
            ),
        forall|k: int|
            0 <= k < services.len() && takes(routes, lane, #[trigger] services[k]) ==> taken(
                routes,
                lane,
                services,
            ).contains(k as usize),
    decreases services.len(),
{
    if services.len() > 0 {
        let front = services.drop_last();
        law_taken_in_order(routes, lane, front);
        let before = taken(routes, lane, front);
        let all = taken(routes, lane, services);
        assert forall|i: int, j: int| 0 <= i < j < all.len() implies #[trigger] all[i]
            < #[trigger] all[j] by {
            if j < before.len() {
                assert(before[i] < before[j]);
            } else {
                assert(before[i] < front.len());
            }
        }
        assert forall|i: int| 0 <= i < all.len() implies (#[trigger] all[i]) < services.len()
            && takes(routes, lane, services[all[i] as int]) by {
            if i < before.len() {
                assert(before[i] < front.len());
                assert(front[before[i] as int] == services[before[i] as int]);
            }
        }
        assert forall|k: int|
            0 <= k < services.len() && takes(
                routes,
                lane,
                #[trigger] services[k],
            ) implies all.contains(k as usize) by {
            if k < front.len() {
                assert(front[k] == services[k]);
                assert(before.contains(k as usize));
                let i = choose|i: int| 0 <= i < before.len() && before[i] == k as usize;
                assert(all[i] == k as usize);
            } else {
                assert(all[before.len() as int] == k as usize);
            }
        }
    }
}

/// The deliveries of the first lanes: each goes to one of them that lists the kind
/// of the batch, in the order of the lanes, with what the lane takes of the batch.
proof fn lemma_deliveries(
    routes: Seq<RouteView>,
    signal: ProxySignal,
    services: Seq<Seq<char>>,
    n: nat,
)
    requires
        n <= routes.len(),
    ensures
        ({
            let all = deliveries(routes, signal, services, n);
            &&& forall|i: int|
                0 <= i < all.len() ==> {
                    &&& 0 <= (#[trigger] all[i]).lane < n
                    &&& routes[all[i].lane].signals.contains(signal)
                    &&& all[i].request.signal == signal
                    &&& all[i].request.resources == taken(routes, all[i].lane, services)
                    &&& all[i].request.resources.len() > 0
                }
            &&& forall|i: int, j: int|
                0 <= i < j < all.len() ==> (#[trigger] all[i]).lane < (#[trigger] all[j]).lane
            &&& forall|lane: int|
                0 <= lane < n && #[trigger] routes[lane].signals.contains(signal) && taken(
                    routes,
                    lane,
                    services,
                ).len() > 0 ==> exists|i: int| 0 <= i < all.len() && (#[trigger] all[i]).lane == lane
        }),
    decreases n,
{
    if n > 0 {
        let m = (n - 1) as nat;
        lemma_deliveries(routes, signal, services, m);
        let front = deliveries(routes, signal, services, m);
        let all = deliveries(routes, signal, services, n);
        assert forall|lane: int|
            0 <= lane < n && #[trigger] routes[lane].signals.contains(signal) && taken(
                routes,
                lane,
                services,
            ).len() > 0 implies exists|i: int|
            0 <= i < all.len() && (#[trigger] all[i]).lane == lane by {
            if lane == m {
                assert(all[front.len() as int].lane == lane);
            } else {
                let i = choose|i: int| 0 <= i < front.len() && (#[trigger] front[i]).lane == lane;
                assert(all[i].lane == lane);
            }
        }
    }
}

/// A delivery goes only to a lane whose route lists the kind of the batch, and
/// carries that kind. Each lane that lists the kind and takes a resource of the batch
/// gets exactly one delivery, and no other lane gets any.
pub proof fn law_deliveries_go_where_the_kind_is_listed(
    routes: Seq<RouteView>,
    record: TelemetryRecord,
    lane: int,
)
    requires
        0 <= lane < routes.len(),
        services_of(record).len() <= usize::MAX,
    ensures
        ({
            let kind = match record {
                TelemetryRecord::Logs(_) => ProxySignal::Logs,
                TelemetryRecord::Traces(_) => ProxySignal::Traces,
                TelemetryRecord::Metrics(_) => ProxySignal::Metrics,
            };
            let all = deliveries(routes, signal_of(record), services_of(record), routes.len());
            &&& forall|i: int|
                0 <= i < all.len() ==> 0 <= (#[trigger] all[i]).lane < routes.len()
                    && routes[all[i].lane].signals.contains(kind) && all[i].request.signal == kind
            &&& (exists|i: int| 0 <= i < all.len() && (#[trigger] all[i]).lane == lane)
                <==> routes[lane].signals.contains(kind) && exists|k: int|
                0 <= k < services_of(record).len() && takes(
                    routes,
                    lane,
                    #[trigger] services_of(record)[k],
                )
            &&& forall|i: int, j: int|
                0 <= i < all.len() && 0 <= j < all.len() && (#[trigger] all[i]).lane == (
                #[trigger] all[j]).lane ==> i == j
        }),
{
    let services = services_of(record);
    let all = deliveries(routes, signal_of(record), services, routes.len());
    lemma_deliveries(routes, signal_of(record), services, routes.len());
    law_taken_in_order(routes, lane, services);
    let mine = taken(routes, lane, services);
    if exists|k: int| 0 <= k < services.len() && takes(routes, lane, #[trigger] services[k]) {
        let k = choose|k: int| 0 <= k < services.len() && takes(routes, lane, #[trigger] services[k]);
        assert(mine.contains(k as usize));
    }
    if exists|i: int| 0 <= i < all.len() && (#[trigger] all[i]).lane == lane {
        let i = choose|i: int| 0 <= i < all.len() && (#[trigger] all[i]).lane == lane;
        assert(all[i].request.resources == mine);
        assert(takes(routes, lane, services[mine[0] as int]));
    }
}

/// Where no two lanes name the same service, a delivery holds exactly the resources
/// of the batch whose service the route of the lane names, in the order of the batch.
pub proof fn law_deliveries_hold_the_resources_of_the_lane(
    routes: Seq<RouteView>,
    record: TelemetryRecord,
    i: int,
    k: int,
)
    requires
        crate::cli::routes::separate(routes),
        services_of(record).len() <= usize::MAX,
        0 <= i < deliveries(routes, signal_of(record), services_of(record), routes.len()).len(),
        0 <= k < services_of(record).len(),
    ensures
        ({
            let d = deliveries(routes, signal_of(record), services_of(record), routes.len())[i];
            let service = match record {
                TelemetryRecord::Logs(req) => crate::otlp::service_of(
                    req.resource_logs@[k].resource,
                ),
                TelemetryRecord::Traces(req) => crate::otlp::service_of(
                    req.resource_spans@[k].resource,
                ),
                TelemetryRecord::Metrics(req) => crate::otlp::service_of(
                    req.resource_metrics@[k].resource,
                ),
            };
            &&& d.request.resources.contains(k as usize)
                <==> routes[d.lane].service_names.contains(service)
            &&& forall|a: int, b: int|
                0 <= a < b < d.request.resources.len() ==> #[trigger] d.request.resources[a]
                    < #[trigger] d.request.resources[b] < services_of(record).len()
        }),
{
    let services = services_of(record);
    lemma_deliveries(routes, signal_of(record), services, routes.len());
    let d = deliveries(routes, signal_of(record), services, routes.len())[i];
    law_taken_in_order(routes, d.lane, services);
    law_lanes_take_what_they_name(routes, d.lane, services[k]);
    let mine = taken(routes, d.lane, services);
    if mine.contains(k as usize) {
        let a = choose|a: int| 0 <= a < mine.len() && mine[a] == k as usize;
        assert(takes(routes, d.lane, services[mine[a] as int]));
    }
}

/// A batch has as many services as resources.
pub proof fn law_each_resource_has_a_service(record: TelemetryRecord)
    ensures
        services_of(record).len() == (match record {
            TelemetryRecord::Logs(req) => req.resource_logs@.len(),
            TelemetryRecord::Traces(req) => req.resource_spans@.len(),
            TelemetryRecord::Metrics(req) => req.resource_metrics@.len(),
        }),
{
}

/// What waits in a queue and what is free in it make up its capacity.
pub proof fn law_queue_depth(q: QueueRoom)
    requires
        q.capacity <= u64::MAX,
    ensures
        q.free <= q.capacity ==> waiting(q) + q.free == q.capacity,
        q.free > q.capacity ==> waiting(q) == 0,
{
}

/// A number is a power of two if and only if it is one of 1, 2, 4, 8 and so on.
pub proof fn law_powers_of_two(n: nat)
    ensures
        power_of_two(1),
        power_of_two(2 * n) <==> power_of_two(n),
        n > 0 ==> !power_of_two(2 * n + 1),
        !power_of_two(0),
{
    assert((2 * n) % 2 == 0 && (2 * n) / 2 == n);
    assert((2 * n + 1) % 2 == 1);
}

/// For every delivery that `notify` makes of a batch, the route of its lane lists the kind
/// of the batch; and each lane that lists the kind and takes a resource of the batch gets
/// exactly one.
pub proof fn law_notifying(
    router: ProxyRouter,
    record: TelemetryRecord,
    r: Vec<Delivery>,
    lane: int,
)
    requires
        call_ensures(ProxyRouter::notify, (&router, &record), r),
        0 <= lane < router.lanes@.len(),
        services_of(record).len() <= usize::MAX,
    ensures
        ({
            let kind = match record {
                TelemetryRecord::Logs(_) => ProxySignal::Logs,
                TelemetryRecord::Traces(_) => ProxySignal::Traces,
                TelemetryRecord::Metrics(_) => ProxySignal::Metrics,
            };
            let takes_some = exists|k: int|
                0 <= k < services_of(record).len() && takes(
                    lane_routes(router.lanes@),
                    lane,
                    #[trigger] services_of(record)[k],
                );
            &&& forall|i: int|
                0 <= i < r@.len() ==> (#[trigger] r@[i]).lane < router.lanes@.len()
                    && router.lanes@[r@[i].lane as int].route.signals@.contains(kind)
                    && r@[i].request@.signal == kind
            &&& forall|i: int, j: int|
                0 <= i < r@.len() && 0 <= j < r@.len() && (#[trigger] r@[i]).lane == (
                #[trigger] r@[j]).lane ==> i == j
            &&& (exists|i: int| 0 <= i < r@.len() && (#[trigger] r@[i]).lane == lane)
                <==> router.lanes@[lane].route.signals@.contains(kind) && takes_some
        }),
{
    let routes = lane_routes(router.lanes@);
    let all = deliveries(routes, signal_of(record), services_of(record), routes.len());
    assert(delivery_views(r@) == all);
    law_deliveries_go_where_the_kind_is_listed(routes, record, lane);
    assert forall|i: int| 0 <= i < r@.len() implies all[i] == (#[trigger] r@[i])@ by {
        assert(delivery_views(r@)[i] == r@[i]@);
    }
    assert forall|i: int| 0 <= i < r@.len() implies (#[trigger] r@[i]).lane < router.lanes@.len()
        && router.lanes@[r@[i].lane as int].route.signals@.contains(signal_of(record))
        && r@[i].request@.signal == signal_of(record) by {
        assert(all[i] == r@[i]@);
        assert(routes[all[i].lane] == router.lanes@[r@[i].lane as int].route@);
    }
    assert forall|i: int, j: int|
        0 <= i < r@.len() && 0 <= j < r@.len() && (#[trigger] r@[i]).lane == (
        #[trigger] r@[j]).lane implies i == j by {
        assert(all[i].lane == all[j].lane);
    }
    assert(routes[lane] == router.lanes@[lane].route@);
    if exists|i: int| 0 <= i < r@.len() && (#[trigger] r@[i]).lane == lane {
        let i = choose|i: int| 0 <= i < r@.len() && (#[trigger] r@[i]).lane == lane;
        assert(all[i].lane == lane);
    }
    if exists|i: int| 0 <= i < all.len() && (#[trigger] all[i]).lane == lane {
        let i = choose|i: int| 0 <= i < all.len() && (#[trigger] all[i]).lane == lane;
        assert(r@[i].lane == lane);
    }
}

/// A service belongs to the last route that names it.
pub proof fn law_the_last_route_owns(routes: Seq<RouteView>, service: Seq<char>)
    ensures
        owner(routes, service) matches Some(i) ==> 0 <= i < routes.len()
            && routes[i].service_names.contains(service) && forall|j: int|
            i < j < routes.len() ==> !(#[trigger] routes[j]).service_names.contains(service),
        owner(routes, service) is None ==> forall|j: int|
            0 <= j < routes.len() ==> !(#[trigger] routes[j]).service_names.contains(service),
    decreases routes.len(),
{
    if routes.len() > 0 && !routes.last().service_names.contains(service) {
        let front = routes.drop_last();
        law_the_last_route_owns(front, service);
        if let Some(i) = owner(front, service) {
            assert forall|j: int| i < j < routes.len() implies !(
            #[trigger] routes[j]).service_names.contains(service) by {
                if j < front.len() {
                    assert(front[j] == routes[j]);
                }
            }
        } else {
            assert forall|j: int| 0 <= j < routes.len() implies !(
            #[trigger] routes[j]).service_names.contains(service) by {
                if j < front.len() {
                    assert(front[j] == routes[j]);
                }
            }
        }
    }
}

/// A request that was queued changes no count. One that found no room, or no worker, is
/// counted as dropped, for its own lane only. The drops are reported at each power of two
/// for a full queue, and always for a closed one.
pub proof fn law_settling(
    router: &mut ProxyRouter,
    lane: usize,
    outcome: SendOutcome,
    r: Option<u64>,
    other: int,
)
    requires
        call_ensures(ProxyRouter::settle, (router, lane, outcome), r),
        lane < old(router).lanes@.len(),
        0 <= other < old(router).lanes@.len(),
        old(router).lanes@[lane as int].metrics.dropped_total < u64::MAX,
    ensures
        final(router).lanes@.len() == old(router).lanes@.len(),
        final(router).lanes@[other].route == old(router).lanes@[other].route,
        other != lane ==> final(router).lanes@[other].metrics == old(router).lanes@[other].metrics,
        outcome == SendOutcome::Queued ==> final(router).lanes@[lane as int].metrics
            == old(router).lanes@[lane as int].metrics && r is None,
        outcome != SendOutcome::Queued ==> {
            let a = old(router).lanes@[lane as int].metrics;
            let b = final(router).lanes@[lane as int].metrics;
            &&& b.dropped_total == a.dropped_total + 1
            &&& b.sent_total == a.sent_total
            &&& b.failed_total == a.failed_total
            &&& outcome == SendOutcome::Closed ==> r == Some(b.dropped_total)
            &&& outcome == SendOutcome::Full && power_of_two(b.dropped_total as nat) ==> r == Some(
                b.dropped_total,
            )
            &&& outcome == SendOutcome::Full && !power_of_two(b.dropped_total as nat) ==> r is None
        },
{
}

/// What became of the requests of each route is told under the name of the route, with how
/// many of them wait.
pub proof fn law_telling_what_became(
    router: ProxyRouter,
    queues: Vec<QueueRoom>,
    r: Vec<(String, RouteMetricsSnapshot)>,
    i: int,
)
    requires
        call_ensures(ProxyRouter::snapshot, (&router, &queues), r),
        0 <= i < router.lanes@.len(),
    ensures
        r@.len() == router.lanes@.len(),
        r@[i].0@ == router.lanes@[i].route.name@,
        r@[i].1.sent == router.lanes@[i].metrics.sent_total,
        r@[i].1.failed == router.lanes@[i].metrics.failed_total,
        r@[i].1.dropped == router.lanes@[i].metrics.dropped_total,
        queues@[i].free <= queues@[i].capacity ==> r@[i].1.queue_depth == queues@[i].capacity
            - queues@[i].free,
{
}

} // verus!
