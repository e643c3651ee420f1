//! Routes: where telemetry is forwarded to.

use super::error::{Refusal, SettingsError};
use super::headers::{merge_cli_headers, resolve_headers, EnvVar, Header, Headers};
use crate::config::{ProxyRouteConfig, ProxySignal, ProxyTransport};
use crate::sorted::is_text_less;
use crate::text::{is_empty, same_text};
use vstd::prelude::*;

verus! {

/// How telemetry is forwarded, on the command line.
#[derive(Clone, Copy, Debug, PartialEq, Eq, Structural)]
pub enum ProxyTransportArg {
    Grpc,
    HttpProtobuf,
}

/// The transport that an argument stands for.
pub open spec fn transport_of(arg: ProxyTransportArg) -> ProxyTransport {
    match arg {
        ProxyTransportArg::Grpc => ProxyTransport::Grpc,
        ProxyTransportArg::HttpProtobuf => ProxyTransport::HttpProtobuf,
    }
}

impl From<ProxyTransportArg> for ProxyTransport {
    fn from(v: ProxyTransportArg) -> (r: ProxyTransport) {
        match v {
            ProxyTransportArg::Grpc => ProxyTransport::Grpc,
            ProxyTransportArg::HttpProtobuf => ProxyTransport::HttpProtobuf,
        }
    }
}

impl vstd::std_specs::convert::FromSpecImpl<ProxyTransportArg> for ProxyTransport {
    open spec fn obeys_from_spec() -> bool {
        true
    }

    open spec fn from_spec(v: ProxyTransportArg) -> ProxyTransport {
        transport_of(v)
    }
}

/// A route, ready for use.
pub struct ProxyRoute {
    pub name: String,
    pub service_names: Vec<String>,
    pub signals: Vec<ProxySignal>,
    pub transport: ProxyTransport,
    pub endpoint: String,
    pub headers: Vec<Header>,
}

/// A route, ready for use.
#[verifier::ext_equal]
pub struct RouteView {
    pub name: Seq<char>,
    pub service_names: Seq<Seq<char>>,
    pub signals: Seq<ProxySignal>,
    pub transport: ProxyTransport,
    pub endpoint: Seq<char>,
    pub headers: Seq<(Seq<char>, Seq<char>)>,
}

impl View for ProxyRoute {
    type V = RouteView;

    open spec fn view(&self) -> RouteView {
        RouteView {
            name: self.name@,
            service_names: crate::text::texts(self.service_names@),
            signals: self.signals@,
            transport: self.transport,
            endpoint: self.endpoint@,
            headers: super::headers::header_views(self.headers@),
        }
    }
}

/// Whether a list holds a signal.
fn holds_signal(signals: &Vec<ProxySignal>, signal: ProxySignal) -> (r: bool)
    ensures
        r == signals@.contains(signal),
{
    for i in 0..signals.len()
        invariant
            forall|j: int| 0 <= j < i ==> signals@[j] != signal,
    {
        if signals[i] == signal {
            return true;
        }
    }
    false
}

impl ProxyRoute {
    /// Whether the route takes telemetry of a kind.
    pub fn accepts_signal(&self, signal: ProxySignal) -> (r: bool)
        ensures
            r == self@.signals.contains(signal),
    {
        holds_signal(&self.signals, signal)
    }
}

/// What the command line says of a built-in route.
pub struct VendorArgs {
    pub endpoint: Option<String>,
    pub transport: Option<ProxyTransportArg>,
    pub headers: Vec<String>,
}

/// Signals in order and without repetition; all of them where none are given.
pub open spec fn normalized_signals(s: Seq<ProxySignal>) -> Seq<ProxySignal> {
    let one = |x: ProxySignal|
        if s.len() == 0 || s.contains(x) {
            seq![x]
        } else {
            Seq::empty()
        };
    one(ProxySignal::Logs) + one(ProxySignal::Traces) + one(ProxySignal::Metrics)
}

/// The service names that are given, or else the built-in ones.
pub open spec fn services_or(
    explicit: Seq<Seq<char>>,
    defaults: Seq<Seq<char>>,
) -> Seq<Seq<char>> {
    if explicit.len() == 0 {
        defaults
    } else {
        explicit
    }
}

/// A route whose services and headers are checked.
pub open spec fn finished_route(
    name: Seq<char>,
    service_names: Seq<Seq<char>>,
    signals: Seq<ProxySignal>,
    transport: ProxyTransport,
    endpoint: Seq<char>,
    headers: Seq<(Seq<char>, Seq<char>)>,
    env: Seq<EnvVar>,
) -> Result<RouteView, Refusal> {
    if exists|i: int| 0 <= i < service_names.len() && (#[trigger] service_names[i]).len() == 0 {
        Err(Refusal::EmptyServiceName { route: name })
    } else {
        match super::headers::sent_headers(headers, env, name) {
            Err(e) => Err(e),
            Ok(headers) => Ok(
                RouteView { name, service_names, signals, transport, endpoint, headers },
            ),
        }
    }
}

/// A built-in route out of the command line and the configuration file. The
/// command line goes before the file; an endpoint in either makes the route.
pub open spec fn vendor_route(
    name: Seq<char>,
    defaults: Seq<Seq<char>>,
    args: VendorArgs,
    config: Option<ProxyRouteConfig>,
    env: Seq<EnvVar>,
) -> Result<Option<RouteView>, Refusal> {
    if args.endpoint is None && config is None {
        if args.transport is Some || args.headers@.len() > 0 {
            Err(Refusal::EndpointMissing { route: name })
        } else {
            Ok(None)
        }
    } else {
        let endpoint = match args.endpoint {
            Some(e) => e@,
            None => config->0.endpoint@,
        };
        let transport = if args.transport is Some {
            transport_of(args.transport->0)
        } else if config is Some && config->0.transport is Some {
            config->0.transport->0
        } else {
            ProxyTransport::Grpc
        };
        let base = match config {
            Some(c) => c.headers@,
            None => Seq::empty(),
        };
        let signals = match config {
            Some(c) => c.signal_types@,
            None => Seq::empty(),
        };
        let services = match config {
            Some(c) => crate::text::texts(c.service_names@),
            None => Seq::empty(),
        };
        match super::headers::with_entries(base, args.headers@) {
            Err(e) => Err(e),
            Ok(headers) => match finished_route(
                name,
                services_or(services, defaults),
                normalized_signals(signals),
                transport,
                endpoint,
                headers,
                env,
            ) {
                Err(e) => Err(e),
                Ok(r) => Ok(Some(r)),
            },
        }
    }
}

/// A route of the configuration file that is not built in.
pub open spec fn custom_route(config: ProxyRouteConfig, env: Seq<EnvVar>) -> Result<
    RouteView,
    Refusal,
> {
    if config.endpoint@.len() == 0 {
        Err(Refusal::EmptyEndpoint { route: config.name@ })
    } else if config.service_names@.len() == 0 {
        Err(Refusal::NoServiceNames { route: config.name@ })
    } else {
        finished_route(
            config.name@,
            crate::text::texts(config.service_names@),
            normalized_signals(config.signal_types@),
            match config.transport {
                Some(t) => t,
                None => ProxyTransport::Grpc,
            },
            config.endpoint@,
            config.headers@,
            env,
        )
    }
}

/// Copies strings.
pub fn copy_strings(s: &Vec<String>) -> (r: Vec<String>)
    ensures
        crate::text::texts(r@) == crate::text::texts(s@),
        r@.len() == s@.len(),
{
    let mut out: Vec<String> = Vec::new();
    for i in 0..s.len()
        invariant
            out@.len() == i,
            forall|j: int| 0 <= j < i ==> #[trigger] out@[j]@ == s@[j]@,
    {
        out.push(s[i].clone());
    }
    assert(crate::text::texts(out@) =~= crate::text::texts(s@));
    out
}

/// Signals in order and without repetition.
pub fn normalize_signals(signals: &Vec<ProxySignal>) -> (r: Vec<ProxySignal>)
    ensures
        r@ == normalized_signals(signals@),
{
    let every = signals.len() == 0;
    let mut out: Vec<ProxySignal> = Vec::new();
    if every || holds_signal(signals, ProxySignal::Logs) {
        out.push(ProxySignal::Logs);
    }
    if every || holds_signal(signals, ProxySignal::Traces) {
        out.push(ProxySignal::Traces);
    }
    if every || holds_signal(signals, ProxySignal::Metrics) {
        out.push(ProxySignal::Metrics);
    }
    assert(out@ =~= normalized_signals(signals@));
    out
}

/// Checks the services and headers of a route.
fn finish_route(
    name: String,
    service_names: Vec<String>,
    signals: Vec<ProxySignal>,
    transport: ProxyTransport,
    endpoint: String,
    headers: &Headers,
    env: &Vec<EnvVar>,
) -> (r: Result<ProxyRoute, SettingsError>)
    ensures
        match finished_route(
            name@,
            crate::text::texts(service_names@),
            signals@,
            transport,
            endpoint@,
            headers@,
            env@,
        ) {
            Ok(v) => r matches Ok(x) && x@ == v,
            Err(e) => r matches Err(x) && x@ == e,
        },
{
    let ghost services = crate::text::texts(service_names@);
    for i in 0..service_names.len()
        invariant
            services == crate::text::texts(service_names@),
            forall|j: int| 0 <= j < i ==> (#[trigger] services[j]).len() > 0,
    {
        if is_empty(service_names[i].as_str()) {
            assert(services[i as int].len() == 0);
            return Err(SettingsError::EmptyServiceName { route: name });
        }
        assert(services[i as int].len() > 0);
    }
    match resolve_headers(headers, env, &name) {
        Err(e) => Err(e),
        Ok(sent) => {
            let route = ProxyRoute {
                name,
                service_names,
                signals,
                transport,
                endpoint,
                headers: sent,
            };
            Ok(route)
        },
    }
}

/// Makes a built-in route out of the command line and the configuration file.
pub fn build_vendor_route(
    name: &str,
    defaults: Vec<String>,
    args: VendorArgs,
    config: Option<&ProxyRouteConfig>,
    env: &Vec<EnvVar>,
) -> (r: Result<Option<ProxyRoute>, SettingsError>)
    ensures
        match vendor_route(
            name@,
            crate::text::texts(defaults@),
            args,
            match config {
                Some(c) => Some(*c),
                None => None,
            },
            env@,
        ) {
            Ok(None) => r matches Ok(None),
            Ok(Some(v)) => r matches Ok(Some(x)) && x@ == v,
            Err(e) => r matches Err(x) && x@ == e,
        },
{
    if args.endpoint.is_none() && config.is_none() {
        if args.transport.is_some() || args.headers.len() > 0 {
            return Err(SettingsError::EndpointMissing { route: name.to_owned() });
        }
        return Ok(None);
    }
    let VendorArgs { endpoint: arg_endpoint, transport: arg_transport, headers: arg_headers } = args;
    let endpoint = match arg_endpoint {
        Some(e) => e,
        None => match config {
            Some(c) => c.endpoint.clone(),
            None => String::new(),
        },
    };
    let transport = match arg_transport {
        Some(t) => ProxyTransport::from(t),
        None => match config {
            Some(c) => match c.transport {
                Some(t) => t,
                None => ProxyTransport::Grpc,
            },
            None => ProxyTransport::Grpc,
        },
    };
    let mut headers = match config {
        Some(c) => c.headers.duplicate(),
        None => Headers::new(),
    };
    if let Err(e) = merge_cli_headers(&mut headers, &arg_headers) {
        return Err(e);
    }
    let signals = match config {
        Some(c) => normalize_signals(&c.signal_types),
        None => {
            let none: Vec<ProxySignal> = Vec::new();
            assert(none@ =~= Seq::<ProxySignal>::empty());
            normalize_signals(&none)
        },
    };
    let service_names = match config {
        Some(c) => if c.service_names.len() > 0 {
            copy_strings(&c.service_names)
        } else {
            defaults
        },
        None => defaults,
    };
    match finish_route(
        name.to_owned(),
        service_names,
        signals,
        transport,
        endpoint,
        &headers,
        env,
    ) {
        Ok(route) => Ok(Some(route)),
        Err(e) => Err(e),
    }
}

/// Makes a route of the configuration file that is not built in.
pub fn build_custom_route(config: &ProxyRouteConfig, env: &Vec<EnvVar>) -> (r: Result<
    ProxyRoute,
    SettingsError,
>)
    ensures
        match custom_route(*config, env@) {
            Ok(v) => r matches Ok(x) && x@ == v,
            Err(e) => r matches Err(x) && x@ == e,
        },
{
    if is_empty(config.endpoint.as_str()) {
        return Err(SettingsError::EmptyEndpoint { route: config.name.clone() });
    }
    if config.service_names.len() == 0 {
        return Err(SettingsError::NoServiceNames { route: config.name.clone() });
    }
    finish_route(
        config.name.clone(),
        copy_strings(&config.service_names),
        normalize_signals(&config.signal_types),
        match config.transport {
            Some(t) => t,
            None => ProxyTransport::Grpc,
        },
        config.endpoint.clone(),
        &config.headers,
        env,
    )
}

/// Whether an earlier route has the name of the route at `i`.
pub open spec fn named_before(routes: Seq<ProxyRouteConfig>, i: int) -> bool {
    exists|j: int| 0 <= j < i && (#[trigger] routes[j]).name@ == routes[i].name@
}

/// The first name from `from` on that an earlier route has too.
pub open spec fn duplicate_name(routes: Seq<ProxyRouteConfig>, from: int) -> Option<Seq<char>>
    decreases routes.len() - from,
{
    if from >= routes.len() {
        None
    } else if named_before(routes, from) {
        Some(routes[from].name@)
    } else {
        duplicate_name(routes, from + 1)
    }
}

/// The first route of a name, from `from` on.
pub open spec fn route_named(routes: Seq<ProxyRouteConfig>, name: Seq<char>, from: int) -> Option<
    ProxyRouteConfig,
>
    decreases routes.len() - from,
{
    if from >= routes.len() {
        None
    } else if routes[from].name@ == name {
        Some(routes[from])
    } else {
        route_named(routes, name, from + 1)
    }
}

/// Whether a name is that of a built-in route.
pub open spec fn built_in(name: Seq<char>) -> bool {
    name == "anthropic"@ || name == "openai"@
}

/// Where a route belongs among routes in the order of their names.
pub open spec fn route_place(s: Seq<ProxyRouteConfig>, name: Seq<char>, from: int) -> int
    decreases s.len() - from,
{
    if from >= s.len() {
        s.len() as int
    } else if crate::sorted::text_less(s[from].name@, name) {
        route_place(s, name, from + 1)
    } else {
        from
    }
}

/// The routes that are not built in, in the order of their names.
pub open spec fn custom_in_order(routes: Seq<ProxyRouteConfig>) -> Seq<ProxyRouteConfig>
    decreases routes.len(),
{
    if routes.len() == 0 {
        Seq::empty()
    } else {
        let front = custom_in_order(routes.drop_last());
        let r = routes.last();
        if built_in(r.name@) {
            front
        } else {
            front.insert(route_place(front, r.name@, 0), r)
        }
    }
}

/// Custom routes made in turn, or the first refusal.
pub open spec fn custom_routes(configs: Seq<ProxyRouteConfig>, env: Seq<EnvVar>) -> Result<
    Seq<RouteView>,
    Refusal,
>
    decreases configs.len(),
{
    if configs.len() == 0 {
        Ok(Seq::empty())
    } else {
        match custom_routes(configs.drop_last(), env) {
            Err(e) => Err(e),
            Ok(s) => match custom_route(configs.last(), env) {
                Err(e) => Err(e),
                Ok(r) => Ok(s.push(r)),
            },
        }
    }
}

/// The service names of the built-in Anthropic route.
pub open spec fn anthropic_services() -> Seq<Seq<char>> {
    seq![crate::agent::claude_code()]
}

/// The service names of the built-in OpenAI route.
pub open spec fn openai_services() -> Seq<Seq<char>> {
    seq!["codex_cli_rs"@, "codex_exec"@, "codex-app-server"@]
}

/// No route or one.
pub open spec fn as_seq(r: Option<RouteView>) -> Seq<RouteView> {
    match r {
        Some(r) => seq![r],
        None => Seq::empty(),
    }
}

/// All routes: the built-in ones, then the others in the order of their names.
pub open spec fn all_routes(
    anthropic: VendorArgs,
    openai: VendorArgs,
    routes: Seq<ProxyRouteConfig>,
    env: Seq<EnvVar>,
) -> Result<Seq<RouteView>, Refusal> {
    if duplicate_name(routes, 0) is Some {
        Err(Refusal::DuplicateRoute { route: duplicate_name(routes, 0)->0 })
    } else {
        match vendor_route(
            "anthropic"@,
            anthropic_services(),
            anthropic,
            route_named(routes, "anthropic"@, 0),
            env,
        ) {
            Err(e) => Err(e),
            Ok(a) => match vendor_route(
                "openai"@,
                openai_services(),
                openai,
                route_named(routes, "openai"@, 0),
                env,
            ) {
                Err(e) => Err(e),
                Ok(o) => match custom_routes(custom_in_order(routes), env) {
                    Err(e) => Err(e),
                    Ok(c) => Ok(as_seq(a) + as_seq(o) + c),
                },
            },
        }
    }
}

/// The views of routes.
pub open spec fn route_views(s: Seq<ProxyRoute>) -> Seq<RouteView> {
    Seq::new(s.len(), |i: int| s[i]@)
}

/// Finds a name that two routes have.
fn find_duplicate(routes: &Vec<ProxyRouteConfig>) -> (r: Option<String>)
    ensures
        crate::clock::text_in(r) == duplicate_name(routes@, 0),
{
    for i in 0..routes.len()
        invariant
            duplicate_name(routes@, 0) == duplicate_name(routes@, i as int),
    {
        for j in 0..i
            invariant
                i < routes@.len(),
                duplicate_name(routes@, 0) == duplicate_name(routes@, i as int),
                forall|k: int| 0 <= k < j ==> (#[trigger] routes@[k]).name@ != routes@[i as int].name@,
        {
            if routes[j].name == routes[i].name {
                assert(routes@[j as int].name@ == routes@[i as int].name@);
                assert(named_before(routes@, i as int));
                return Some(routes[i].name.clone());
            }
        }
        assert(!named_before(routes@, i as int));
    }
    None
}

/// Finds the route of a name.
fn find_route<'a>(routes: &'a Vec<ProxyRouteConfig>, name: &str) -> (r: Option<&'a ProxyRouteConfig>)
    ensures
        match route_named(routes@, name@, 0) {
            Some(c) => r matches Some(x) && *x == c,
            None => r is None,
        },
{
    for i in 0..routes.len()
        invariant
            route_named(routes@, name@, 0) == route_named(routes@, name@, i as int),
    {
        if same_text(routes[i].name.as_str(), name) {
            return Some(&routes[i]);
        }
    }
    None
}

/// The routes at the given positions.
pub open spec fn picked(routes: Seq<ProxyRouteConfig>, order: Seq<usize>) -> Seq<ProxyRouteConfig> {
    Seq::new(order.len(), |i: int| routes[order[i] as int])
}

/// The positions of the routes that are not built in, in the order of names.
fn order_custom(routes: &Vec<ProxyRouteConfig>) -> (r: Vec<usize>)
    ensures
        forall|i: int| 0 <= i < r@.len() ==> (#[trigger] r@[i]) < routes@.len(),
        picked(routes@, r@) == custom_in_order(routes@),
{
    let mut order: Vec<usize> = Vec::new();
    assert(picked(routes@, order@) =~= custom_in_order(routes@.take(0)));
    for n in 0..routes.len()
        invariant
            forall|i: int| 0 <= i < order@.len() ==> (#[trigger] order@[i]) < routes@.len(),
            picked(routes@, order@) == custom_in_order(routes@.take(n as int)),
    {
        assert(routes@.take(n + 1).drop_last() =~= routes@.take(n as int));
        let name = routes[n].name.as_str();
        if !(same_text(name, "anthropic") || same_text(name, "openai")) {
            let ghost front = picked(routes@, order@);
            let mut i: usize = 0;
            while i < order.len() && is_text_less(routes[order[i]].name.as_str(), name)
                invariant
                    n < routes@.len(),
                    name@ == routes@[n as int].name@,
                    i <= order@.len(),
                    front == picked(routes@, order@),
                    forall|i: int| 0 <= i < order@.len() ==> (#[trigger] order@[i]) < routes@.len(),
                    route_place(front, name@, 0) == route_place(front, name@, i as int),
                decreases order@.len() - i,
            {
                assert(front[i as int] == routes@[order@[i as int] as int]);
                i = i + 1;
            }
            proof {
                if i < order@.len() {
                    assert(front[i as int] == routes@[order@[i as int] as int]);
                }
            }
            let ghost before = order@;
            order.insert(i, n);
            assert(order@ =~= before.insert(i as int, n));
            assert(picked(routes@, order@) =~= front.insert(i as int, routes@[n as int]));
        }
    }
    assert(routes@.take(routes@.len() as int) =~= routes@);
    order
}

proof fn lemma_first_bad_route(configs: Seq<ProxyRouteConfig>, env: Seq<EnvVar>, k: int)
    requires
        0 <= k <= configs.len(),
    ensures
        custom_routes(configs.take(k), env) is Err ==> custom_routes(configs, env)
            == custom_routes(configs.take(k), env),
    decreases configs.len(),
{
    if k < configs.len() {
        assert(configs.drop_last().take(k) =~= configs.take(k));
        lemma_first_bad_route(configs.drop_last(), env, k);
    } else {
        assert(configs.take(k) =~= configs);
    }
}

/// Adds the routes that are not built in.
fn add_custom_routes(
    out: &mut Vec<ProxyRoute>,
    routes: &Vec<ProxyRouteConfig>,
    env: &Vec<EnvVar>,
) -> (r: Result<(), SettingsError>)
    ensures
        match custom_routes(custom_in_order(routes@), env@) {
            Ok(s) => r is Ok && route_views(final(out)@) == route_views(old(out)@) + s,
            Err(e) => r matches Err(x) && x@ == e,
        },
{
    let order = order_custom(routes);
    let ghost configs = custom_in_order(routes@);
    let ghost start = route_views(out@);
    let mut k: usize = 0;
    proof {
        assert(configs.take(0) =~= Seq::<ProxyRouteConfig>::empty());
        assert(route_views(out@) =~= start + Seq::<RouteView>::empty());
    }
    while k < order.len()
        invariant
            k <= order@.len(),
            start == route_views(old(out)@),
            configs == custom_in_order(routes@),
            configs == picked(routes@, order@),
            forall|i: int| 0 <= i < order@.len() ==> (#[trigger] order@[i]) < routes@.len(),
            custom_routes(configs.take(k as int), env@) is Ok,
            route_views(out@) == start + custom_routes(configs.take(k as int), env@)->Ok_0,
        decreases order@.len() - k,
    {
        proof {
            assert(configs.take(k + 1).drop_last() =~= configs.take(k as int));
            assert(configs.take(k + 1).last() == routes@[order@[k as int] as int]);
            lemma_first_bad_route(configs, env@, k + 1);
        }
        match build_custom_route(&routes[order[k]], env) {
            Err(e) => {
                return Err(e);
            },
            Ok(route) => {
                let ghost before = route_views(out@);
                out.push(route);
                assert(route_views(out@) =~= before.push(route@));
            },
        }
        k = k + 1;
    }
    assert(configs.take(configs.len() as int) =~= configs);
    Ok(())
}

/// The built-in service names of a route.
fn strings(a: &str) -> (r: Vec<String>)
    ensures
        crate::text::texts(r@) == seq![a@],
{
    let mut out: Vec<String> = Vec::new();
    out.push(a.to_owned());
    assert(crate::text::texts(out@) =~= seq![a@]);
    out
}

/// Makes all routes.
pub fn build_routes(
    anthropic: VendorArgs,
    openai: VendorArgs,
    routes: &Vec<ProxyRouteConfig>,
    env: &Vec<EnvVar>,
) -> (r: Result<Vec<ProxyRoute>, SettingsError>)
    ensures
        match all_routes(anthropic, openai, routes@, env@) {
            Ok(s) => r matches Ok(v) && route_views(v@) == s,
            Err(e) => r matches Err(x) && x@ == e,
        },
{
    if let Some(name) = find_duplicate(routes) {
        return Err(SettingsError::DuplicateRoute { route: name });
    }
    let mut out: Vec<ProxyRoute> = Vec::new();
    let anthropic_defaults = strings(crate::agent::claude_code_name().as_str());
    assert(crate::text::texts(anthropic_defaults@) =~= anthropic_services());
    match build_vendor_route(
        "anthropic",
        anthropic_defaults,
        anthropic,
        find_route(routes, "anthropic"),
        env,
    ) {
        Err(e) => {
            return Err(e);
        },
        Ok(Some(route)) => {
            out.push(route);
        },
        Ok(None) => {},
    }
    let ghost first = route_views(out@);
    let mut openai_defaults: Vec<String> = Vec::new();
    openai_defaults.push("codex_cli_rs".to_owned());
    openai_defaults.push("codex_exec".to_owned());
    openai_defaults.push("codex-app-server".to_owned());
    assert(crate::text::texts(openai_defaults@) =~= openai_services());
    match build_vendor_route(
        "openai",
        openai_defaults,
        openai,
        find_route(routes, "openai"),
        env,
    ) {
        Err(e) => {
            return Err(e);
        },
        Ok(Some(route)) => {
            out.push(route);
            assert(route_views(out@) =~= first.push(route@));
        },
        Ok(None) => {},
    }
    let ghost built = route_views(out@);
    proof {
        let a = vendor_route(
            "anthropic"@,
            anthropic_services(),
            anthropic,
            route_named(routes@, "anthropic"@, 0),
            env@,
        )->Ok_0;
        let o = vendor_route(
            "openai"@,
            openai_services(),
            openai,
            route_named(routes@, "openai"@, 0),
            env@,
        )->Ok_0;
        assert(first =~= as_seq(a));
        assert(built =~= as_seq(a) + as_seq(o));
    }
    match add_custom_routes(&mut out, routes, env) {
        Err(e) => Err(e),
        Ok(_) => Ok(out),
    }
}

/// The services that a route claims, each with the name of the route.
pub open spec fn claims_of(r: RouteView) -> Seq<(Seq<char>, Seq<char>)> {
    Seq::new(r.service_names.len(), |i: int| (r.service_names[i], r.name))
}

/// The services that routes claim.
pub open spec fn claims(routes: Seq<RouteView>) -> Seq<(Seq<char>, Seq<char>)>
    decreases routes.len(),
{
    if routes.len() == 0 {
        Seq::empty()
    } else {
        claims(routes.drop_last()) + claims_of(routes.last())
    }
}

/// The position of the first claim to a service, from `from` on.
pub open spec fn claim_position(c: Seq<(Seq<char>, Seq<char>)>, service: Seq<char>, from: int) -> int
    decreases c.len() - from,
{
    if from >= c.len() {
        c.len() as int
    } else if c[from].0 == service {
        from
    } else {
        claim_position(c, service, from + 1)
    }
}

/// The first claim from `from` on to a service that was claimed before.
pub open spec fn claimed_twice(c: Seq<(Seq<char>, Seq<char>)>, from: int) -> Option<Refusal>
    decreases c.len() - from,
{
    if from >= c.len() {
        None
    } else {
        let i = claim_position(c, c[from].0, 0);
        if i < from {
            Some(
                Refusal::ServiceClaimedTwice {
                    service: c[from].0,
                    first: c[i].1,
                    second: c[from].1,
                },
            )
        } else {
            claimed_twice(c, from + 1)
        }
    }
}

/// A service and the route that claims it.
struct Claim {
    service: String,
    route: String,
}

spec fn claim_views(s: Seq<Claim>) -> Seq<(Seq<char>, Seq<char>)> {
    Seq::new(s.len(), |i: int| (s[i].service@, s[i].route@))
}

proof fn lemma_claim_position(c: Seq<(Seq<char>, Seq<char>)>, k: int, from: int)
    requires
        0 <= from <= k < c.len(),
        forall|j: int| 0 <= j < from ==> (#[trigger] c[j]).0 != c[k].0,
        claim_position(c, c[k].0, 0) == claim_position(c, c[k].0, from),
    ensures
        forall|j: int| 0 <= j < claim_position(c, c[k].0, 0) ==> (#[trigger] c[j]).0 != c[k].0,
        claim_position(c, c[k].0, 0) <= k,
        c[claim_position(c, c[k].0, 0)].0 == c[k].0,
        0 <= claim_position(c, c[k].0, 0),
    decreases k - from,
{
    if c[from].0 != c[k].0 {
        lemma_claim_position(c, k, from + 1);
    }
}

/// Refuses routes that claim the same service.
pub fn check_claims(routes: &Vec<ProxyRoute>) -> (r: Result<(), SettingsError>)
    ensures
        match claimed_twice(claims(route_views(routes@)), 0) {
            Some(e) => r matches Err(x) && x@ == e,
            None => r is Ok,
        },
{
    let mut list: Vec<Claim> = Vec::new();
    let ghost views = route_views(routes@);
    assert(claim_views(list@) =~= claims(views.take(0)));
    for i in 0..routes.len()
        invariant
            views == route_views(routes@),
            claim_views(list@) == claims(views.take(i as int)),
    {
        let ghost before = claim_views(list@);
        let route = &routes[i];
        let ghost mine = claims_of(views[i as int]);
        proof {
            assert(views.take(i + 1).drop_last() =~= views.take(i as int));
            assert(views[i as int] == route@);
            assert(before =~= before + mine.take(0));
        }
        for j in 0..route.service_names.len()
            invariant
                mine == claims_of(route@),
                claim_views(list@) == before + mine.take(j as int),
        {
            let ghost so_far = claim_views(list@);
            list.push(
                Claim { service: route.service_names[j].clone(), route: route.name.clone() },
            );
            proof {
                assert(mine[j as int] == (route.service_names@[j as int]@, route.name@));
                assert(claim_views(list@) =~= so_far.push(mine[j as int]));
                assert(so_far.push(mine[j as int]) =~= before + mine.take(j + 1));
            }
        }
        assert(mine.take(mine.len() as int) =~= mine);
    }
    assert(views.take(views.len() as int) =~= views);
    let ghost all = claims(views);
    for k in 0..list.len()
        invariant
            all == claims(route_views(routes@)),
            all == claim_views(list@),
            claimed_twice(all, 0) == claimed_twice(all, k as int),
    {
        for j in 0..k
            invariant
                k < list@.len(),
                all == claims(route_views(routes@)),
                all == claim_views(list@),
                claimed_twice(all, 0) == claimed_twice(all, k as int),
                forall|x: int| 0 <= x < j ==> (#[trigger] all[x]).0 != all[k as int].0,
                claim_position(all, all[k as int].0, 0) == claim_position(
                    all,
                    all[k as int].0,
                    j as int,
                ),
        {
            assert(all[j as int].0 == list@[j as int].service@);
            assert(all[k as int].0 == list@[k as int].service@);
            if list[j].service == list[k].service {
                return Err(
                    SettingsError::ServiceClaimedTwice {
                        service: list[k].service.clone(),
                        first: list[j].route.clone(),
                        second: list[k].route.clone(),
                    },
                );
            }
        }
    }
    Ok(())
}

proof fn lemma_claims_differ(c: Seq<(Seq<char>, Seq<char>)>, a: int, b: int)
    requires
        claimed_twice(c, 0) is None,
        0 <= a < b < c.len(),
    ensures
        c[a].0 != c[b].0,
{
    lemma_unclaimed(c, 0, b);
    if c[a].0 == c[b].0 {
        lemma_claim_position(c, b, 0);
    }
}

/// Where the claims of a route stand among those of all routes.
proof fn lemma_claims_at(routes: Seq<RouteView>, i: int, p: int)
    requires
        0 <= i < routes.len(),
        0 <= p < routes[i].service_names.len(),
    ensures
        claims(routes.take(i)).len() + p < claims(routes.take(i + 1)).len() <= claims(routes).len(),
        claims(routes)[claims(routes.take(i)).len() + p].0 == routes[i].service_names[p],
    decreases routes.len(),
{
    let front = routes.drop_last();
    if i == routes.len() - 1 {
        assert(routes.take(i) =~= front);
        assert(routes.take(i + 1) =~= routes);
    } else {
        assert(front.take(i) =~= routes.take(i));
        assert(front.take(i + 1) =~= routes.take(i + 1));
        lemma_claims_at(front, i, p);
    }
}

proof fn lemma_claims_grow(routes: Seq<RouteView>, i: int, j: int)
    requires
        0 <= i <= j <= routes.len(),
    ensures
        claims(routes.take(i)).len() <= claims(routes.take(j)).len(),
    decreases j - i,
{
    if i < j {
        assert(routes.take(j).drop_last() =~= routes.take(j - 1));
        lemma_claims_grow(routes, i, j - 1);
    }
}

/// Whether no two routes name the same service.
pub open spec fn separate(routes: Seq<RouteView>) -> bool {
    forall|i: int, j: int, service: Seq<char>|
        0 <= i < routes.len() && 0 <= j < routes.len()
            && #[trigger] routes[i].service_names.contains(service)
            && #[trigger] routes[j].service_names.contains(service) ==> i == j
}

/// No service is named by two routes that pass the check.
pub proof fn law_services_have_one_route(routes: Seq<RouteView>)
    requires
        claimed_twice(claims(routes), 0) is None,
    ensures
        separate(routes),
{
    assert forall|i: int, j: int, service: Seq<char>|
        0 <= i < routes.len() && 0 <= j < routes.len()
            && #[trigger] routes[i].service_names.contains(service)
            && #[trigger] routes[j].service_names.contains(service) implies i == j by {
        let (a, b) = if i <= j {
            (i, j)
        } else {
            (j, i)
        };
        if a < b {
            let p = routes[a].service_names.index_of(service);
            let q = routes[b].service_names.index_of(service);
            lemma_claims_at(routes, a, p);
            lemma_claims_at(routes, b, q);
            lemma_claims_grow(routes, a + 1, b);
            lemma_claims_differ(
                claims(routes),
                claims(routes.take(a)).len() + p,
                claims(routes.take(b)).len() + q,
            );
        }
    }
}

/// Whether a route is fit for use: no service name is empty, and its headers
/// are safe to send.
pub open spec fn sound_route(r: RouteView) -> bool {
    &&& forall|i: int| 0 <= i < r.service_names.len() ==> (#[trigger] r.service_names[i]).len() > 0
    &&& forall|i: int|
        0 <= i < r.headers.len() ==> super::headers::safe_header(#[trigger] r.headers[i])
}

proof fn lemma_finished_route_is_sound(
    name: Seq<char>,
    service_names: Seq<Seq<char>>,
    signals: Seq<ProxySignal>,
    transport: ProxyTransport,
    endpoint: Seq<char>,
    headers: Seq<(Seq<char>, Seq<char>)>,
    env: Seq<EnvVar>,
)
    ensures
        finished_route(name, service_names, signals, transport, endpoint, headers, env) matches Ok(
            r,
        ) ==> sound_route(r),
{
    if super::headers::sent_headers(headers, env, name) is Ok {
        super::headers::law_sent_headers_are_safe(headers, env, name);
    }
}

proof fn lemma_custom_routes_are_sound(configs: Seq<ProxyRouteConfig>, env: Seq<EnvVar>)
    ensures
        custom_routes(configs, env) matches Ok(s) ==> forall|i: int|
            0 <= i < s.len() ==> sound_route(#[trigger] s[i]),
    decreases configs.len(),
{
    if configs.len() > 0 {
        lemma_custom_routes_are_sound(configs.drop_last(), env);
        let c = configs.last();
        lemma_finished_route_is_sound(
            c.name@,
            crate::text::texts(c.service_names@),
            normalized_signals(c.signal_types@),
            match c.transport {
                Some(t) => t,
                None => ProxyTransport::Grpc,
            },
            c.endpoint@,
            c.headers@,
            env,
        );
    }
}

proof fn lemma_vendor_route_is_sound(
    name: Seq<char>,
    defaults: Seq<Seq<char>>,
    args: VendorArgs,
    config: Option<ProxyRouteConfig>,
    env: Seq<EnvVar>,
)
    ensures
        vendor_route(name, defaults, args, config, env) matches Ok(Some(r)) ==> sound_route(r),
{
    let base = match config {
        Some(c) => c.headers@,
        None => Seq::empty(),
    };
    if let Ok(headers) = super::headers::with_entries(base, args.headers@) {
        lemma_finished_route_is_sound(
            name,
            services_or(
                match config {
                    Some(c) => crate::text::texts(c.service_names@),
                    None => Seq::empty(),
                },
                defaults,
            ),
            normalized_signals(
                match config {
                    Some(c) => c.signal_types@,
                    None => Seq::empty(),
                },
            ),
            if args.transport is Some {
                transport_of(args.transport->0)
            } else if config is Some && config->0.transport is Some {
                config->0.transport->0
            } else {
                ProxyTransport::Grpc
            },
            match args.endpoint {
                Some(e) => e@,
                None => config->0.endpoint@,
            },
            headers,
            env,
        );
    }
}

/// Whatever the command line, the configuration file and the environment hold,
/// routes that are made have no empty service name and only safe headers.
pub proof fn law_routes_are_sound(
    anthropic: VendorArgs,
    openai: VendorArgs,
    routes: Seq<ProxyRouteConfig>,
    env: Seq<EnvVar>,
)
    ensures
        all_routes(anthropic, openai, routes, env) matches Ok(s) ==> forall|i: int|
            0 <= i < s.len() ==> sound_route(#[trigger] s[i]),
{
    lemma_vendor_route_is_sound(
        "anthropic"@,
        anthropic_services(),
        anthropic,
        route_named(routes, "anthropic"@, 0),
        env,
    );
    lemma_vendor_route_is_sound(
        "openai"@,
        openai_services(),
        openai,
        route_named(routes, "openai"@, 0),
        env,
    );
    lemma_custom_routes_are_sound(custom_in_order(routes), env);
}

proof fn lemma_unclaimed(c: Seq<(Seq<char>, Seq<char>)>, from: int, k: int)
    requires
        0 <= from <= k < c.len(),
        claimed_twice(c, from) is None,
    ensures
        claim_position(c, c[k].0, 0) >= k,
    decreases k - from,
{
    if from < k {
        lemma_unclaimed(c, from + 1, k);
    }
}

/// A built-in route has the endpoint of the command line, where that gives one, and that of
/// the configuration file only where it does not; in the same way its transport. Without
/// either endpoint there is no route.
pub proof fn law_building_a_vendor_route(
    name: &str,
    services: Vec<String>,
    args: VendorArgs,
    config: Option<&ProxyRouteConfig>,
    env: Vec<EnvVar>,
    r: Result<Option<ProxyRoute>, SettingsError>,
)
    requires
        call_ensures(build_vendor_route, (name, services, args, config, &env), r),
        r is Ok,
    ensures
        r->Ok_0 is Some <==> args.endpoint is Some || config is Some,
        r->Ok_0 matches Some(route) ==> {
            &&& route.name@ == name@
            &&& args.endpoint matches Some(e) ==> route.endpoint@ == e@
            &&& args.endpoint is None ==> route.endpoint@ == config->0.endpoint@
            &&& args.transport == Some(ProxyTransportArg::Grpc) ==> route.transport
                == ProxyTransport::Grpc
            &&& args.transport == Some(ProxyTransportArg::HttpProtobuf) ==> route.transport
                == ProxyTransport::HttpProtobuf
            &&& args.transport is None && config is Some && config->0.transport is Some
                ==> route.transport == config->0.transport->0
            &&& args.transport is None && (config is None || config->0.transport is None)
                ==> route.transport == ProxyTransport::Grpc
        },
{
    if let Some(route) = r->Ok_0 {
        assert(route@.endpoint == route.endpoint@);
        assert(route@.name == route.name@);
        assert(route@.transport == route.transport);
    }
}

proof fn lemma_no_claim_before(c: Seq<(Seq<char>, Seq<char>)>, service: Seq<char>, from: int)
    requires
        0 <= from,
    ensures
        from <= claim_position(c, service, from) || from >= c.len(),
        claim_position(c, service, from) < c.len() ==> from <= claim_position(c, service, from)
            && c[claim_position(c, service, from)].0 == service,
    decreases c.len() - from,
{
    if from < c.len() && c[from].0 != service {
        lemma_no_claim_before(c, service, from + 1);
    }
}

proof fn lemma_claimed_twice(c: Seq<(Seq<char>, Seq<char>)>, from: int)
    requires
        0 <= from,
    ensures
        match claimed_twice(c, from) {
            Some(e) => exists|i: int, j: int|
                0 <= i < j < c.len() && (#[trigger] c[i]).0 == (#[trigger] c[j]).0 && e
                    == (Refusal::ServiceClaimedTwice {
                    service: c[j].0,
                    first: c[i].1,
                    second: c[j].1,
                }),
            None => true,
        },
    decreases c.len() - from,
{
    if from < c.len() {
        let i = claim_position(c, c[from].0, 0);
        lemma_no_claim_before(c, c[from].0, 0);
        if i < from {
            assert(c[i].0 == c[from].0);
        } else {
            lemma_claimed_twice(c, from + 1);
        }
    }
}

/// Services are refused for having two routes only where one has: the refusal names a
/// service and the routes of two claims to it.
pub proof fn law_services_that_are_claimed_twice(routes: Seq<RouteView>)
    ensures
        claimed_twice(claims(routes), 0) matches Some(e) ==> {
            let c = claims(routes);
            exists|i: int, j: int|
                0 <= i < j < c.len() && (#[trigger] c[i]).0 == (#[trigger] c[j]).0 && e
                    == (Refusal::ServiceClaimedTwice {
                    service: c[j].0,
                    first: c[i].1,
                    second: c[j].1,
                })
        },
{
    lemma_claimed_twice(claims(routes), 0);
}

/// Each service of each route is a claim of that route, and there are no other claims.
pub proof fn law_what_routes_claim(routes: Seq<RouteView>, last: RouteView)
    ensures
        claims(Seq::empty()).len() == 0,
        claims(routes.push(last)).len() == claims(routes).len() + last.service_names.len(),
        forall|i: int|
            0 <= i < claims(routes).len() ==> #[trigger] claims(routes.push(last))[i] == claims(
                routes,
            )[i],
        forall|i: int|
            0 <= i < last.service_names.len() ==> claims(routes.push(last))[claims(routes).len()
                + i] == (#[trigger] last.service_names[i], last.name),
{
    assert(routes.push(last).drop_last() =~= routes);
    assert forall|i: int| 0 <= i < last.service_names.len() implies claims(
        routes.push(last),
    )[claims(routes).len() + i] == (#[trigger] last.service_names[i], last.name) by {
        assert(claims_of(last)[i] == (last.service_names[i], last.name));
    }
}

/// Why a route of the configuration file is refused: it has no endpoint, it names no
/// service, or a name of a service is empty.
pub proof fn law_why_other_routes_are_refused(config: ProxyRouteConfig, env: Seq<EnvVar>, i: int)
    ensures
        config.endpoint@.len() == 0 ==> custom_route(config, env) == Err::<RouteView, Refusal>(
            Refusal::EmptyEndpoint { route: config.name@ },
        ),
        config.endpoint@.len() > 0 && config.service_names@.len() == 0 ==> custom_route(config, env)
            == Err::<RouteView, Refusal>(Refusal::NoServiceNames { route: config.name@ }),
        config.endpoint@.len() > 0 && 0 <= i < config.service_names@.len()
            && config.service_names@[i]@.len() == 0 ==> custom_route(config, env) == Err::<
            RouteView,
            Refusal,
        >(Refusal::EmptyServiceName { route: config.name@ }),
{
    let names = crate::text::texts(config.service_names@);
    if 0 <= i < config.service_names@.len() {
        assert(names[i] == config.service_names@[i]@);
    }
}

/// A transport or a header on the command line needs an endpoint, and without any of them
/// there is no route.
pub proof fn law_why_built_in_routes_are_refused(
    name: Seq<char>,
    services: Seq<Seq<char>>,
    args: VendorArgs,
    env: Seq<EnvVar>,
)
    requires
        args.endpoint is None,
    ensures
        args.transport is Some || args.headers@.len() > 0 ==> vendor_route(
            name,
            services,
            args,
            None,
            env,
        ) == Err::<Option<RouteView>, Refusal>(Refusal::EndpointMissing { route: name }),
        args.transport is None && args.headers@.len() == 0 ==> vendor_route(
            name,
            services,
            args,
            None,
            env,
        ) == Ok::<Option<RouteView>, Refusal>(None),
{
}

/// Names are refused as duplicates only where two routes have one, and it is that name
/// which is reported.
pub proof fn law_names_that_are_taken_twice(routes: Seq<ProxyRouteConfig>, from: int)
    requires
        0 <= from,
    ensures
        duplicate_name(routes, from) matches Some(name) ==> exists|i: int, j: int|
            0 <= i < j < routes.len() && (#[trigger] routes[i]).name@ == name && (
            #[trigger] routes[j]).name@ == name,
    decreases routes.len() - from,
{
    if from < routes.len() {
        if named_before(routes, from) {
            let i = choose|i: int| 0 <= i < from && (#[trigger] routes[i]).name@ == routes[from].name@;
            assert(routes[i].name@ == routes[from].name@);
        } else {
            law_names_that_are_taken_twice(routes, from + 1);
        }
    }
}

/// The kinds of telemetry of a route stand in one order, each once, and are those that are
/// listed, or all where none are.
pub proof fn law_signals_stand_in_order(s: Seq<ProxySignal>, i: int, j: int)
    requires
        0 <= i < j < normalized_signals(s).len(),
    ensures
        normalized_signals(s).len() <= 3,
        normalized_signals(s)[i] != normalized_signals(s)[j],
        normalized_signals(s)[j] != ProxySignal::Logs,
        normalized_signals(s)[i] != ProxySignal::Metrics,
        s.len() == 0 ==> normalized_signals(s) == seq![
            ProxySignal::Logs,
            ProxySignal::Traces,
            ProxySignal::Metrics,
        ],
{
    let one = |x: ProxySignal|
        if s.len() == 0 || s.contains(x) {
            seq![x]
        } else {
            Seq::empty()
        };
    let (a, b, c) = (one(ProxySignal::Logs), one(ProxySignal::Traces), one(ProxySignal::Metrics));
    assert(normalized_signals(s) == a + b + c);
    assert(a.len() <= 1 && b.len() <= 1 && c.len() <= 1);
    if s.len() == 0 {
        assert(normalized_signals(s) =~= seq![
            ProxySignal::Logs,
            ProxySignal::Traces,
            ProxySignal::Metrics,
        ]);
    }
}

} // verus!
