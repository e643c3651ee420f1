//! What the command line and the configuration file say is what accepted settings
//! hold.

use super::headers::EnvVar;
use super::routes::{ProxyTransportArg, RouteView, VendorArgs};
use super::{Cli, ColorMode, SinkView};
use crate::config::{Config, ProxyRouteConfig, ProxySignal, ProxyTransport};
use vstd::prelude::*;

verus! {

/// The routes of the configuration file.
pub open spec fn configured(config: Config) -> Seq<ProxyRouteConfig> {
    match config.proxy {
        Some(p) => p.routes@,
        None => Seq::empty(),
    }
}

/// The routes of accepted settings.
pub open spec fn accepted(
    cli: Cli,
    config: Config,
    home: Option<Seq<u8>>,
    env: Seq<EnvVar>,
) -> Seq<RouteView> {
    match super::merged(cli, config, home, env)->Ok_0.proxy {
        Some(p) => p.routes,
        None => Seq::empty(),
    }
}

/// Whether the configuration file has a route of a name.
pub open spec fn configures(config: Config, name: Seq<char>) -> bool {
    exists|i: int| 0 <= i < configured(config).len() && (#[trigger] configured(config)[i]).name@ == name
}

/// The endpoint that the command line gives a built-in route.
pub open spec fn endpoint_argument(cli: Cli, name: Seq<char>) -> Option<String> {
    if name == "anthropic"@ {
        cli.proxy_anthropic_endpoint
    } else {
        cli.proxy_openai_endpoint
    }
}

/// The transport that the command line gives a built-in route.
pub open spec fn transport_argument(cli: Cli, name: Seq<char>) -> Option<ProxyTransportArg> {
    if name == "anthropic"@ {
        cli.proxy_anthropic_transport
    } else {
        cli.proxy_openai_transport
    }
}

/// The headers that the command line gives a built-in route.
pub open spec fn header_arguments(cli: Cli, name: Seq<char>) -> Seq<String> {
    if name == "anthropic"@ {
        cli.proxy_anthropic_headers@
    } else {
        cli.proxy_openai_headers@
    }
}

/// What the command line says of a built-in route.
spec fn arguments(cli: Cli, name: Seq<char>) -> VendorArgs {
    if name == "anthropic"@ {
        super::anthropic_args(cli)
    } else {
        super::openai_args(cli)
    }
}

/// The services of a built-in route by default.
spec fn defaults(name: Seq<char>) -> Seq<Seq<char>> {
    if name == "anthropic"@ {
        super::routes::anthropic_services()
    } else {
        super::routes::openai_services()
    }
}

proof fn lemma_names_differ()
    ensures
        "anthropic"@ != "openai"@,
{
    reveal_strlit("anthropic");
    reveal_strlit("openai");
    assert("anthropic"@.len() == 9);
    assert("openai"@.len() == 6);
}

/// The routes that are not built in are those of the configuration file, one for
/// one.
proof fn lemma_custom_routes(configs: Seq<ProxyRouteConfig>, env: Seq<EnvVar>)
    ensures
        super::routes::custom_routes(configs, env) matches Ok(s) ==> s.len() == configs.len()
            && forall|i: int|
            0 <= i < s.len() ==> super::routes::custom_route(configs[i], env) == Ok::<
                RouteView,
                super::error::Refusal,
            >(#[trigger] s[i]),
    decreases configs.len(),
{
    if configs.len() > 0 {
        lemma_custom_routes(configs.drop_last(), env);
        if let Ok(s) = super::routes::custom_routes(configs, env) {
            assert forall|i: int| 0 <= i < s.len() implies super::routes::custom_route(
                configs[i],
                env,
            ) == Ok::<RouteView, super::error::Refusal>(#[trigger] s[i]) by {
                if i < s.len() - 1 {
                    let t = super::routes::custom_routes(configs.drop_last(), env)->Ok_0;
                    assert(s[i] == t[i]);
                    assert(configs.drop_last()[i] == configs[i]);
                }
            }
        }
    }
}

/// The first route of a name is a route of that name, and there is none where no
/// route is found.
proof fn lemma_route_named(routes: Seq<ProxyRouteConfig>, name: Seq<char>, from: int)
    requires
        0 <= from,
    ensures
        match super::routes::route_named(routes, name, from) {
            Some(c) => exists|i: int|
                from <= i < routes.len() && #[trigger] routes[i] == c && c.name@ == name,
            None => forall|i: int| from <= i < routes.len() ==> (#[trigger] routes[i]).name@ != name,
        },
    decreases routes.len() - from,
{
    if from < routes.len() {
        if routes[from].name@ == name {
            assert(routes[from] == routes[from]);
        } else {
            lemma_route_named(routes, name, from + 1);
            if let Some(c) = super::routes::route_named(routes, name, from + 1) {
                let i = choose|i: int|
                    from + 1 <= i < routes.len() && #[trigger] routes[i] == c && c.name@ == name;
                assert(routes[i] == c);
            }
        }
    }
}

/// Where routes have different names, a route of a name is the first of that name.
proof fn lemma_found(routes: Seq<ProxyRouteConfig>, i: int)
    requires
        super::routes::duplicate_name(routes, 0) is None,
        0 <= i < routes.len(),
    ensures
        super::routes::route_named(routes, routes[i].name@, 0) == Some(routes[i]),
{
    super::order::lemma_distinct(routes);
    lemma_route_named(routes, routes[i].name@, 0);
    let c = super::routes::route_named(routes, routes[i].name@, 0);
    if c is None {
        assert(routes[i].name@ != routes[i].name@);
    } else {
        let j = choose|j: int|
            0 <= j < routes.len() && #[trigger] routes[j] == c->0 && c->0.name@ == routes[i].name@;
        let v = super::order::config_views(routes);
        assert(v[i].name == v[j].name);
        assert(i == j);
    }
}

/// Where a built-in route stands among accepted routes.
proof fn lemma_built_in(
    cli: Cli,
    config: Config,
    home: Option<Seq<u8>>,
    env: Seq<EnvVar>,
    name: Seq<char>,
)
    requires
        super::merged(cli, config, home, env) is Ok,
        name == "anthropic"@ || name == "openai"@,
    ensures
        ({
            let made = super::routes::vendor_route(
                name,
                defaults(name),
                arguments(cli, name),
                super::routes::route_named(configured(config), name, 0),
                env,
            );
            let routes = accepted(cli, config, home, env);
            &&& made is Ok
            &&& made->Ok_0 is Some ==> exists|k: int|
                0 <= k < routes.len() && #[trigger] routes[k] == made->Ok_0->0
            &&& forall|k: int|
                0 <= k < routes.len() && (#[trigger] routes[k]).name == name ==> made->Ok_0 is Some
                    && routes[k] == made->Ok_0->0
            &&& forall|k: int, l: int|
                0 <= k < routes.len() && 0 <= l < routes.len() && (#[trigger] routes[k]).name
                    == name && (#[trigger] routes[l]).name == name ==> k == l
        }),
{
    lemma_names_differ();
    let table = configured(config);
    let a = super::routes::vendor_route(
        "anthropic"@,
        super::routes::anthropic_services(),
        super::anthropic_args(cli),
        super::routes::route_named(table, "anthropic"@, 0),
        env,
    );
    let o = super::routes::vendor_route(
        "openai"@,
        super::routes::openai_services(),
        super::openai_args(cli),
        super::routes::route_named(table, "openai"@, 0),
        env,
    );
    let all = super::routes::all_routes(
        super::anthropic_args(cli),
        super::openai_args(cli),
        table,
        env,
    );
    assert(crate::config::table_of(config).routes == table);
    let routes = all->Ok_0;
    assert(accepted(cli, config, home, env) =~= routes);
    let custom = super::routes::custom_in_order(table);
    let c = super::routes::custom_routes(custom, env)->Ok_0;
    let first = super::routes::as_seq(a->Ok_0);
    let second = super::routes::as_seq(o->Ok_0);
    super::order::lemma_distinct(table);
    super::order::lemma_custom_in_order(table);
    lemma_custom_routes(custom, env);
    assert forall|i: int| 0 <= i < c.len() implies !super::routes::built_in(
        (#[trigger] c[i]).name,
    ) by {
        assert(super::order::config_views(custom)[i] == custom[i]@);
        assert(super::order::config_views(custom).contains(custom[i]@));
        assert(super::routes::custom_route(custom[i], env) is Ok);
    }
    assert forall|k: int| 0 <= k < routes.len() implies (#[trigger] routes[k]) == (if k
        < first.len() {
        first[k]
    } else if k < first.len() + second.len() {
        second[k - first.len()]
    } else {
        c[k - first.len() - second.len()]
    }) by {}
    if name == "anthropic"@ && a->Ok_0 is Some {
        assert(routes[0] == a->Ok_0->0);
    }
    if name == "openai"@ && o->Ok_0 is Some {
        assert(routes[first.len() as int] == o->Ok_0->0);
    }
}

/// Where the command line gives an endpoint for a built-in route, and settings are
/// accepted, there is one route of that name and it has exactly this endpoint,
/// whatever the configuration file says of it. Only without one does it have the
/// endpoint of the configuration file, and without either there is no such route.
pub proof fn law_command_line_endpoint_goes_first(
    cli: Cli,
    config: Config,
    home: Option<Seq<u8>>,
    env: Seq<EnvVar>,
    name: Seq<char>,
)
    requires
        super::merged(cli, config, home, env) is Ok,
        name == "anthropic"@ || name == "openai"@,
    ensures
        ({
            let routes = accepted(cli, config, home, env);
            let given = endpoint_argument(cli, name);
            &&& (exists|k: int| 0 <= k < routes.len() && (#[trigger] routes[k]).name == name)
                <==> given is Some || configures(config, name)
            &&& forall|k: int, l: int|
                0 <= k < routes.len() && 0 <= l < routes.len() && (#[trigger] routes[k]).name
                    == name && (#[trigger] routes[l]).name == name ==> k == l
            &&& given is Some ==> forall|k: int|
                0 <= k < routes.len() && (#[trigger] routes[k]).name == name ==> routes[k].endpoint
                    == given->0@
            &&& given is None ==> forall|k: int, i: int|
                0 <= k < routes.len() && (#[trigger] routes[k]).name == name && 0 <= i < configured(
                    config,
                ).len() && (#[trigger] configured(config)[i]).name@ == name ==> routes[k].endpoint
                    == configured(config)[i].endpoint@
        }),
{
    lemma_built_in(cli, config, home, env, name);
    lemma_names_differ();
    let table = configured(config);
    let routes = accepted(cli, config, home, env);
    let found = super::routes::route_named(table, name, 0);
    let made = super::routes::vendor_route(name, defaults(name), arguments(cli, name), found, env);
    lemma_route_named(table, name, 0);
    assert(crate::config::table_of(config).routes == table);
    assert forall|i: int| 0 <= i < table.len() && (#[trigger] table[i]).name@ == name implies found
        == Some(table[i]) by {
        lemma_found(table, i);
    }
    if endpoint_argument(cli, name) is Some || configures(config, name) {
        if found is None && configures(config, name) {
            let i = choose|i: int| 0 <= i < table.len() && (#[trigger] table[i]).name@ == name;
            assert(table[i].name@ != name);
        }
        assert(made->Ok_0 is Some);
        let k = choose|k: int| 0 <= k < routes.len() && #[trigger] routes[k] == made->Ok_0->0;
        assert(routes[k].name == name);
    } else if found is Some {
        let i = choose|i: int|
            0 <= i < table.len() && #[trigger] table[i] == found->0 && found->0.name@ == name;
        assert(configures(config, name));
    }
}

/// A built-in route is sent as the command line says, or else as the configuration
/// file says, or else by gRPC.
pub proof fn law_command_line_transport_goes_first(
    cli: Cli,
    config: Config,
    home: Option<Seq<u8>>,
    env: Seq<EnvVar>,
    name: Seq<char>,
    k: int,
)
    requires
        super::merged(cli, config, home, env) is Ok,
        name == "anthropic"@ || name == "openai"@,
        0 <= k < accepted(cli, config, home, env).len(),
        accepted(cli, config, home, env)[k].name == name,
    ensures
        ({
            let transport = accepted(cli, config, home, env)[k].transport;
            &&& transport_argument(cli, name) == Some(ProxyTransportArg::Grpc) ==> transport
                == ProxyTransport::Grpc
            &&& transport_argument(cli, name) == Some(ProxyTransportArg::HttpProtobuf)
                ==> transport == ProxyTransport::HttpProtobuf
            &&& transport_argument(cli, name) is None ==> forall|i: int|
                0 <= i < configured(config).len() && (#[trigger] configured(config)[i]).name@
                    == name ==> transport == (match configured(config)[i].transport {
                    Some(t) => t,
                    None => ProxyTransport::Grpc,
                })
            &&& transport_argument(cli, name) is None && !configures(config, name) ==> transport
                == ProxyTransport::Grpc
        }),
{
    lemma_built_in(cli, config, home, env, name);
    lemma_names_differ();
    let table = configured(config);
    lemma_route_named(table, name, 0);
    assert(crate::config::table_of(config).routes == table);
    assert forall|i: int| 0 <= i < table.len() && (
    #[trigger] table[i]).name@ == name implies super::routes::route_named(table, name, 0) == Some(
        table[i],
    ) by {
        lemma_found(table, i);
    }
}

/// Whether a route takes a kind of telemetry where the given kinds are listed: one
/// that is listed, and each where none is.
pub open spec fn listed(signals: Seq<ProxySignal>, signal: ProxySignal) -> bool {
    signals.len() == 0 || signals.contains(signal)
}

proof fn lemma_normalized(signals: Seq<ProxySignal>, signal: ProxySignal)
    ensures
        super::routes::normalized_signals(signals).contains(signal) <==> listed(signals, signal),
{
    let one = |x: ProxySignal|
        if signals.len() == 0 || signals.contains(x) {
            seq![x]
        } else {
            Seq::empty()
        };
    let (a, b, c) = (one(ProxySignal::Logs), one(ProxySignal::Traces), one(ProxySignal::Metrics));
    let s = super::routes::normalized_signals(signals);
    assert(s == a + b + c);
    if listed(signals, signal) {
        match signal {
            ProxySignal::Logs => {
                assert(s[0] == ProxySignal::Logs);
            },
            ProxySignal::Traces => {
                assert(s[a.len() as int] == ProxySignal::Traces);
            },
            ProxySignal::Metrics => {
                assert(s[a.len() as int + b.len()] == ProxySignal::Metrics);
            },
        }
    } else if s.contains(signal) {
        let i = choose|i: int| 0 <= i < s.len() && s[i] == signal;
        if i < a.len() {
            assert(s[i] == a[i]);
        } else if i < a.len() + b.len() {
            assert(s[i] == b[i - a.len()]);
        } else {
            assert(s[i] == c[i - a.len() - b.len()]);
        }
    }
}

/// A built-in route takes the services and the kinds of telemetry that the
/// configuration file lists for it. Where none are listed it takes each kind of
/// telemetry, and the services of the agent of its vendor.
pub proof fn law_built_in_routes_take_what_is_listed(
    cli: Cli,
    config: Config,
    home: Option<Seq<u8>>,
    env: Seq<EnvVar>,
    name: Seq<char>,
    k: int,
    signal: ProxySignal,
)
    requires
        super::merged(cli, config, home, env) is Ok,
        name == "anthropic"@ || name == "openai"@,
        0 <= k < accepted(cli, config, home, env).len(),
        accepted(cli, config, home, env)[k].name == name,
    ensures
        ({
            let route = accepted(cli, config, home, env)[k];
            let own = if name == "anthropic"@ {
                seq![crate::agent::claude_code()]
            } else {
                seq!["codex_cli_rs"@, "codex_exec"@, "codex-app-server"@]
            };
            &&& !configures(config, name) ==> route.service_names == own && route.signals.contains(
                signal,
            )
            &&& forall|i: int|
                0 <= i < configured(config).len() && (#[trigger] configured(config)[i]).name@
                    == name ==> {
                    let given = configured(config)[i];
                    &&& given.service_names@.len() == 0 ==> route.service_names == own
                    &&& given.service_names@.len() > 0 ==> route.service_names
                        == crate::text::texts(given.service_names@)
                    &&& route.signals.contains(signal) <==> listed(given.signal_types@, signal)
                }
        }),
{
    lemma_built_in(cli, config, home, env, name);
    lemma_names_differ();
    let table = configured(config);
    lemma_route_named(table, name, 0);
    assert(crate::config::table_of(config).routes == table);
    assert forall|i: int| 0 <= i < table.len() && (
    #[trigger] table[i]).name@ == name implies super::routes::route_named(table, name, 0) == Some(
        table[i],
    ) by {
        lemma_found(table, i);
    }
    lemma_normalized(Seq::empty(), signal);
    let found = super::routes::route_named(table, name, 0);
    if found is Some {
        lemma_normalized(found->0.signal_types@, signal);
        assert(crate::text::texts(found->0.service_names@).len() == found->0.service_names@.len());
    }
}

/// Each route of the configuration file that is not built in is among accepted
/// routes, once, as the configuration file has it: by gRPC where it names no
/// transport, and with each kind of telemetry where it lists none.
pub proof fn law_other_routes_are_as_configured(
    cli: Cli,
    config: Config,
    home: Option<Seq<u8>>,
    env: Seq<EnvVar>,
    i: int,
    signal: ProxySignal,
)
    requires
        super::merged(cli, config, home, env) is Ok,
        0 <= i < configured(config).len(),
        configured(config)[i].name@ != "anthropic"@,
        configured(config)[i].name@ != "openai"@,
    ensures
        ({
            let routes = accepted(cli, config, home, env);
            let given = configured(config)[i];
            &&& exists|k: int| 0 <= k < routes.len() && (#[trigger] routes[k]).name == given.name@
            &&& forall|k: int|
                0 <= k < routes.len() && (#[trigger] routes[k]).name == given.name@ ==> {
                    &&& routes[k].endpoint == given.endpoint@
                    &&& routes[k].service_names == crate::text::texts(given.service_names@)
                    &&& routes[k].transport == (match given.transport {
                        Some(t) => t,
                        None => ProxyTransport::Grpc,
                    })
                    &&& routes[k].signals.contains(signal) <==> listed(given.signal_types@, signal)
                }
        }),
{
    lemma_names_differ();
    let table = configured(config);
    let given = table[i];
    let routes = accepted(cli, config, home, env);
    assert(crate::config::table_of(config).routes == table);
    let a = super::routes::vendor_route(
        "anthropic"@,
        super::routes::anthropic_services(),
        super::anthropic_args(cli),
        super::routes::route_named(table, "anthropic"@, 0),
        env,
    );
    let o = super::routes::vendor_route(
        "openai"@,
        super::routes::openai_services(),
        super::openai_args(cli),
        super::routes::route_named(table, "openai"@, 0),
        env,
    );
    let custom = super::routes::custom_in_order(table);
    let c = super::routes::custom_routes(custom, env)->Ok_0;
    let first = super::routes::as_seq(a->Ok_0);
    let second = super::routes::as_seq(o->Ok_0);
    let all = super::routes::all_routes(
        super::anthropic_args(cli),
        super::openai_args(cli),
        table,
        env,
    )->Ok_0;
    assert(routes =~= all);
    super::order::lemma_distinct(table);
    super::order::lemma_custom_in_order(table);
    lemma_custom_routes(custom, env);
    let views = super::order::config_views(custom);
    let told = super::order::config_views(table);
    assert(told[i] == given@);
    assert(told.contains(given@));
    assert(views.contains(given@));
    let j = choose|j: int| 0 <= j < views.len() && views[j] == given@;
    assert(views[j] == custom[j]@);
    assert(super::routes::custom_route(custom[j], env) == Ok::<RouteView, super::error::Refusal>(
        c[j],
    ));
    assert(routes[first.len() + second.len() + j] == c[j]);
    lemma_normalized(given.signal_types@, signal);
    assert forall|k: int| 0 <= k < routes.len() && (#[trigger] routes[k]).name == given.name@ implies
        routes[k] == c[j] by {
        let n = k - first.len() - second.len();
        if n >= 0 {
            assert(routes[k] == c[n]);
            assert(super::routes::custom_route(custom[n], env) == Ok::<
                RouteView,
                super::error::Refusal,
            >(c[n]));
            assert(views[n] == custom[n]@);
            assert(views.contains(views[n]));
            assert(told.contains(views[n]));
            let m = choose|m: int| 0 <= m < told.len() && told[m] == views[n];
            assert(told[m].name == told[i].name);
            assert(m == i);
            if n != j {
                assert(crate::sorted::text_less(views[n].name, views[j].name)
                    || crate::sorted::text_less(views[j].name, views[n].name));
                crate::sorted::lemma_less_irreflexive(views[j].name);
            }
        }
    }
}

/// Where telemetry is kept: in the file or directory of the command line, or else
/// in that of the configuration file, or else nowhere. Settings that name both a
/// file and a directory in one place are refused. Ten days are kept by default.
pub proof fn law_where_telemetry_is_kept(cli: Cli, config: Config, home: Option<Seq<u8>>)
    ensures
        ({
            let sink = super::chosen_sink(cli, config, home);
            let days = if cli.log_keep_days is Some {
                cli.log_keep_days->0
            } else if config.log_keep_days is Some {
                config.log_keep_days->0
            } else {
                10u32
            };
            &&& cli.log_file is Some && cli.log_dir is Some ==> sink == Err::<
                Option<SinkView>,
                super::error::Refusal,
            >(super::error::Refusal::CliSinksConflict)
            &&& cli.log_file is Some && cli.log_dir is None ==> sink is Ok && sink->Ok_0 == Some(
                SinkView::File(crate::path::expanded(cli.log_file->0@, home)),
            )
            &&& cli.log_file is None && cli.log_dir is Some ==> sink is Ok && sink->Ok_0 == Some(
                SinkView::Directory {
                    dir: crate::path::expanded(cli.log_dir->0@, home),
                    keep_days: days,
                },
            )
            &&& cli.log_file is None && cli.log_dir is None ==> {
                &&& config.log_file is Some && config.log_dir is Some ==> sink == Err::<
                    Option<SinkView>,
                    super::error::Refusal,
                >(super::error::Refusal::ConfigSinksConflict)
                &&& config.log_file is Some && config.log_dir is None ==> sink is Ok && sink->Ok_0
                    == Some(SinkView::File(crate::path::expanded(config.log_file->0@, home)))
                &&& config.log_file is None && config.log_dir is Some ==> sink is Ok && sink->Ok_0
                    == Some(
                    SinkView::Directory {
                        dir: crate::path::expanded(config.log_dir->0@, home),
                        keep_days: days,
                    },
                )
                &&& config.log_file is None && config.log_dir is None ==> sink is Ok && sink->Ok_0
                    is None
            }
        }),
{
}

/// What is not given has its default: the addresses and ports of OTLP, colour for a
/// terminal, and for forwarding a queue of 1024 batches, five seconds for a request
/// and eight more tries.
pub proof fn law_defaults(cli: Cli, config: Config, home: Option<Seq<u8>>, env: Seq<EnvVar>)
    requires
        super::merged(cli, config, home, env) is Ok,
    ensures
        ({
            let s = super::merged(cli, config, home, env)->Ok_0;
            &&& cli.grpc_addr is None && config.grpc_addr is None ==> s.grpc_addr
                == "0.0.0.0:4317"@
            &&& cli.http_addr is None && config.http_addr is None ==> s.http_addr
                == "0.0.0.0:4318"@
            &&& cli.color is None && config.color is None ==> s.color == ColorMode::Auto
            &&& s.dry_run == cli.dry_run
            &&& !cli.no_stdout && config.no_stdout != Some(true) ==> !s.no_stdout
            &&& !cli.no_stdout && !cli.no_stdout_off && config.no_stdout == Some(true)
                ==> s.no_stdout
            &&& !cli.no_stdout && cli.no_stdout_off ==> !s.no_stdout
            &&& !cli.summary && config.summary != Some(true) ==> !s.summary
            &&& !cli.summary && !cli.summary_off && config.summary == Some(true) ==> s.summary
            &&& !cli.summary && cli.summary_off ==> !s.summary
            &&& config.proxy is None && s.proxy is Some ==> s.proxy->0.queue_capacity == 1024
                && s.proxy->0.timeout_ms == 5000 && s.proxy->0.retry_max == 8
            &&& config.proxy is Some && s.proxy is Some ==> {
                let p = config.proxy->0;
                &&& p.queue_capacity is None || p.queue_capacity == Some(0usize)
                    ==> s.proxy->0.queue_capacity == 1024
                &&& p.timeout_ms is None || p.timeout_ms == Some(0u64) ==> s.proxy->0.timeout_ms
                    == 5000
                &&& p.retry_max is None ==> s.proxy->0.retry_max == 8
                &&& p.queue_capacity is Some && p.queue_capacity->0 > 0
                    ==> s.proxy->0.queue_capacity == p.queue_capacity->0
                &&& p.timeout_ms is Some && p.timeout_ms->0 > 0 ==> s.proxy->0.timeout_ms
                    == p.timeout_ms->0
                &&& p.retry_max is Some ==> s.proxy->0.retry_max == p.retry_max->0
            }
        }),
{
}

/// Checkpoints are kept where the command line says, or else where the
/// configuration file says, or else next to where telemetry is kept.
pub proof fn law_where_checkpoints_are_kept(
    cli: Cli,
    config: Config,
    home: Option<Seq<u8>>,
    env: Seq<EnvVar>,
)
    requires
        super::merged(cli, config, home, env) is Ok,
        super::merged(cli, config, home, env)->Ok_0.proxy is Some,
    ensures
        ({
            let s = super::merged(cli, config, home, env)->Ok_0;
            let dir = s.proxy->0.checkpoint_dir;
            let given = config.proxy is Some && config.proxy->0.checkpoint_dir is Some;
            let beside = crate::config::ascii_bytes(".otel-logger-proxy"@);
            &&& cli.proxy_checkpoint_dir is Some ==> dir == crate::path::expanded(
                cli.proxy_checkpoint_dir->0@,
                home,
            )
            &&& cli.proxy_checkpoint_dir is None && given ==> dir == crate::path::expanded(
                config.proxy->0.checkpoint_dir->0@,
                home,
            )
            &&& cli.proxy_checkpoint_dir is None && !given ==> match s.log_sink->0 {
                SinkView::Directory { dir: base, .. } => dir == crate::path::joined(base, beside),
                SinkView::File(path) => dir == crate::path::joined(
                    match crate::path::parent_of(path) {
                        Some(above) => above,
                        None => crate::config::ascii_bytes("."@),
                    },
                    beside,
                ),
            }
        }),
{
}

/// Routes are forwarded to if and only if there are any, and then no two of them
/// take the same service.
pub proof fn law_what_is_refused(
    cli: Cli,
    config: Config,
    home: Option<Seq<u8>>,
    env: Seq<EnvVar>,
)
    ensures
        super::merged(cli, config, home, env) is Ok ==> {
            let s = super::merged(cli, config, home, env)->Ok_0;
            &&& s.proxy is None <==> cli.proxy_anthropic_endpoint is None
                && cli.proxy_openai_endpoint is None && configured(config).len() == 0
            &&& s.proxy is Some ==> super::routes::separate(s.proxy->0.routes)
        },
        cli.log_file is Some && cli.log_dir is Some ==> super::merged(cli, config, home, env) is Err,
        cli.proxy_anthropic_endpoint is None && !configures(config, "anthropic"@) && (
        cli.proxy_anthropic_transport is Some || cli.proxy_anthropic_headers@.len() > 0)
            ==> super::merged(cli, config, home, env) is Err,
        cli.proxy_openai_endpoint is None && !configures(config, "openai"@) && (
        cli.proxy_openai_transport is Some || cli.proxy_openai_headers@.len() > 0)
            ==> super::merged(cli, config, home, env) is Err,
{
    lemma_names_differ();
    let table = configured(config);
    assert(crate::config::table_of(config).routes == table);
    let m = super::merged(cli, config, home, env);
    assert forall|name: Seq<char>| !#[trigger] configures(
        config,
        name,
    ) implies super::routes::route_named(table, name, 0) is None by {
        lemma_route_named(table, name, 0);
        if let Some(c) = super::routes::route_named(table, name, 0) {
            let i = choose|i: int| 0 <= i < table.len() && #[trigger] table[i] == c && c.name@ == name;
            assert(configures(config, name));
        }
    }
    if m is Ok {
        let s = m->Ok_0;
        let routes = accepted(cli, config, home, env);
        law_command_line_endpoint_goes_first(cli, config, home, env, "anthropic"@);
        law_command_line_endpoint_goes_first(cli, config, home, env, "openai"@);
        if s.proxy is Some {
            super::routes::law_services_have_one_route(s.proxy->0.routes);
        }
        if table.len() > 0 {
            if table[0].name@ == "anthropic"@ {
                assert(configures(config, "anthropic"@));
            } else if table[0].name@ == "openai"@ {
                assert(configures(config, "openai"@));
            } else {
                law_other_routes_are_as_configured(cli, config, home, env, 0, ProxySignal::Logs);
            }
            assert(routes.len() > 0);
        } else {
            assert(!configures(config, "anthropic"@));
            assert(!configures(config, "openai"@));
            assert(super::routes::custom_in_order(table) =~= Seq::empty());
            if cli.proxy_anthropic_endpoint is None && cli.proxy_openai_endpoint is None
                && routes.len() > 0 {
                lemma_built_in(cli, config, home, env, "anthropic"@);
                lemma_built_in(cli, config, home, env, "openai"@);
                let all = super::routes::all_routes(
                    super::anthropic_args(cli),
                    super::openai_args(cli),
                    table,
                    env,
                )->Ok_0;
                assert(all =~= Seq::empty());
            }
        }
    }
}

/// Output is coloured where that is asked for, and by default on a terminal unless
/// `NO_COLOR` is set.
pub proof fn law_when_output_is_coloured(no_color: bool, is_terminal: bool)
    ensures
        super::color_on(ColorMode::Always, no_color, is_terminal),
        !super::color_on(ColorMode::Never, no_color, is_terminal),
        super::color_on(ColorMode::Auto, no_color, is_terminal) <==> is_terminal && !no_color,
{
}

/// A built-in route sends the headers of the configuration file with those of the command
/// line set over them.
pub proof fn law_command_line_headers_go_last(
    cli: Cli,
    config: Config,
    home: Option<Seq<u8>>,
    env: Seq<EnvVar>,
    name: Seq<char>,
    k: int,
)
    requires
        super::merged(cli, config, home, env) is Ok,
        name == "anthropic"@ || name == "openai"@,
        0 <= k < accepted(cli, config, home, env).len(),
        accepted(cli, config, home, env)[k].name == name,
    ensures
        ({
            let route = accepted(cli, config, home, env)[k];
            let set = |base: Seq<(Seq<char>, Seq<char>)>|
                super::headers::with_entries(base, header_arguments(cli, name));
            &&& !configures(config, name) ==> set(Seq::empty()) is Ok
                && super::headers::sent_headers(set(Seq::empty())->Ok_0, env, name) == Ok::<
                Seq<(Seq<char>, Seq<char>)>,
                super::error::Refusal,
            >(route.headers)
            &&& forall|i: int|
                0 <= i < configured(config).len() && (#[trigger] configured(config)[i]).name@
                    == name ==> set(configured(config)[i].headers@) is Ok
                    && super::headers::sent_headers(
                    set(configured(config)[i].headers@)->Ok_0,
                    env,
                    name,
                ) == Ok::<Seq<(Seq<char>, Seq<char>)>, super::error::Refusal>(route.headers)
        }),
{
    lemma_built_in(cli, config, home, env, name);
    lemma_names_differ();
    let table = configured(config);
    lemma_route_named(table, name, 0);
    assert(crate::config::table_of(config).routes == table);
    assert forall|i: int| 0 <= i < table.len() && (
    #[trigger] table[i]).name@ == name implies super::routes::route_named(table, name, 0) == Some(
        table[i],
    ) by {
        lemma_found(table, i);
    }
}

/// No two routes of the configuration file may have one name, and one that is not built in
/// has to have an endpoint and a service; no service name may be empty.
pub proof fn law_routes_that_are_refused(
    cli: Cli,
    config: Config,
    home: Option<Seq<u8>>,
    env: Seq<EnvVar>,
    i: int,
    j: int,
)
    requires
        0 <= i < configured(config).len(),
        0 <= j < configured(config).len(),
        super::merged(cli, config, home, env) is Ok,
    ensures
        i != j ==> configured(config)[i].name@ != configured(config)[j].name@,
        configured(config)[i].name@ != "anthropic"@ && configured(config)[i].name@ != "openai"@
            ==> configured(config)[i].endpoint@.len() > 0
            && configured(config)[i].service_names@.len() > 0,
        forall|k: int, n: int|
            0 <= k < accepted(cli, config, home, env).len() && 0 <= n < accepted(
                cli,
                config,
                home,
                env,
            )[k].service_names.len() ==> (#[trigger] accepted(cli, config, home, env)[k].service_names[n]).len()
                > 0,
{
    let table = configured(config);
    assert(crate::config::table_of(config).routes == table);
    super::order::lemma_distinct(table);
    let views = super::order::config_views(table);
    assert(views[i].name == table[i].name@ && views[j].name == table[j].name@);
    super::routes::law_routes_are_sound(
        super::anthropic_args(cli),
        super::openai_args(cli),
        table,
        env,
    );
    if table[i].name@ != "anthropic"@ && table[i].name@ != "openai"@ {
        let custom = super::routes::custom_in_order(table);
        super::order::lemma_custom_in_order(table);
        lemma_custom_routes(custom, env);
        let c = super::order::config_views(custom);
        assert(views.contains(table[i]@)) by {
            assert(views[i] == table[i]@);
        }
        assert(c.contains(table[i]@));
        let n = choose|n: int| 0 <= n < c.len() && c[n] == table[i]@;
        assert(c[n] == custom[n]@);
        let made = super::routes::custom_routes(custom, env)->Ok_0;
        assert(super::routes::custom_route(custom[n], env) == Ok::<RouteView, super::error::Refusal>(
            made[n],
        ));
        assert(custom[n]@.service_names.len() == custom[n].service_names@.len());
        assert(table[i]@.service_names.len() == table[i].service_names@.len());
    }
    let routes = accepted(cli, config, home, env);
    let all = super::routes::all_routes(
        super::anthropic_args(cli),
        super::openai_args(cli),
        table,
        env,
    )->Ok_0;
    assert(routes =~= all);
    assert forall|k: int, n: int|
        0 <= k < routes.len() && 0 <= n < routes[k].service_names.len() implies (
    #[trigger] routes[k].service_names[n]).len() > 0 by {
        assert(super::routes::sound_route(routes[k]));
    }
}

/// A warning that standard output grows without bound is due if it is written to and is no
/// terminal.
pub proof fn law_warnings(settings: super::Settings, terminal: bool, r: bool)
    requires
        call_ensures(super::Settings::warns_unrotated_stdout, (&settings, terminal), r),
    ensures
        r <==> !settings.no_stdout && !terminal,
{
}

/// Where the command line gives an endpoint for a built-in route, the settings that
/// `merge_with_home` makes have it, whatever the configuration file says.
pub proof fn law_merging_settings(
    cli: Cli,
    config: Config,
    home: Option<Vec<u8>>,
    env: Vec<EnvVar>,
    r: Result<super::Settings, super::error::SettingsError>,
    name: Seq<char>,
    k: int,
)
    requires
        call_ensures(super::Settings::merge_with_home, (cli, config, &home, &env), r),
        r is Ok,
        name == "anthropic"@ || name == "openai"@,
        endpoint_argument(cli, name) is Some,
    ensures
        r->Ok_0.proxy is Some,
        ({
            let routes = r->Ok_0.proxy->0.routes@;
            &&& exists|i: int| 0 <= i < routes.len() && (#[trigger] routes[i]).name@ == name
            &&& 0 <= k < routes.len() && routes[k].name@ == name ==> routes[k].endpoint@
                == endpoint_argument(cli, name)->0@
        }),
{
    let h = crate::path::bytes_in(home);
    law_command_line_endpoint_goes_first(cli, config, h, env@, name);
    let s = r->Ok_0;
    let views = accepted(cli, config, h, env@);
    assert(s@ == super::merged(cli, config, h, env@)->Ok_0);
    let i = choose|i: int| 0 <= i < views.len() && (#[trigger] views[i]).name == name;
    assert(s@.proxy is Some);
    let routes = s.proxy->0.routes@;
    assert(views == super::routes::route_views(routes));
    assert(views[i] == routes[i]@);
    assert(routes[i].name@ == name);
    if 0 <= k < routes.len() && routes[k].name@ == name {
        assert(views[k] == routes[k]@);
        assert(views[k].name == name);
    }
}

/// Settings without any route are accepted unless a file and a directory are named in one
/// place, and then nothing is forwarded.
pub proof fn law_settings_without_routes(
    cli: Cli,
    config: Config,
    home: Option<Seq<u8>>,
    env: Seq<EnvVar>,
)
    requires
        configured(config).len() == 0,
        cli.proxy_anthropic_endpoint is None,
        cli.proxy_anthropic_transport is None,
        cli.proxy_anthropic_headers@.len() == 0,
        cli.proxy_openai_endpoint is None,
        cli.proxy_openai_transport is None,
        cli.proxy_openai_headers@.len() == 0,
    ensures
        super::merged(cli, config, home, env) is Err <==> (cli.log_file is Some
            && cli.log_dir is Some) || (cli.log_file is None && cli.log_dir is None
            && config.log_file is Some && config.log_dir is Some),
        super::merged(cli, config, home, env) matches Ok(s) ==> s.proxy is None,
{
    let table = configured(config);
    assert(crate::config::table_of(config).routes == table);
    assert(super::routes::custom_in_order(table) =~= Seq::empty());
    let none = Seq::<RouteView>::empty();
    assert(none + none + none =~= none);
}

} // verus!
