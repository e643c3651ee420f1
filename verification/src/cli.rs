//! Settings: what the command line, the environment and the configuration file
//! come to.

pub mod error;
pub mod headers;
pub mod laws;
pub mod order;
pub mod routes;

use crate::config::{bytes_of, Config, ProxyConfig, ProxyTable};
use crate::path::{copy_all, expand_user_path, join, parent};
use error::{Refusal, SettingsError};
use headers::EnvVar;
use routes::{build_routes, check_claims, ProxyRoute, ProxyTransportArg, RouteView, VendorArgs};
use vstd::prelude::*;

verus! {

/// When output is coloured.
#[derive(Clone, Copy, Debug, PartialEq, Eq, Structural)]
pub enum ColorMode {
    Auto,
    Always,
    Never,
}

/// Whether output is coloured: `Auto` colours a terminal, unless `NO_COLOR` is
/// set.
pub open spec fn color_on(mode: ColorMode, no_color: bool, is_terminal: bool) -> bool {
    match mode {
        ColorMode::Always => true,
        ColorMode::Never => false,
        ColorMode::Auto => !no_color && is_terminal,
    }
}

impl ColorMode {
    /// Whether to colour standard output.
    pub fn enabled_for_stdout(self, no_color: bool, is_terminal: bool) -> (r: bool)
        ensures
            r == color_on(self, no_color, is_terminal),
    {
        match self {
            ColorMode::Always => true,
            ColorMode::Never => false,
            ColorMode::Auto => !no_color && is_terminal,
        }
    }
}

/// A subcommand.
pub enum Commands {
    /// Write a starter file.
    Init { path: Option<Vec<u8>>, force: bool, daemon: bool },
}

/// The command line, with the environment behind it. Addresses are held as
/// text, paths as bytes.
pub struct Cli {
    pub command: Option<Commands>,
    pub config: Option<Vec<u8>>,
    pub grpc_addr: Option<String>,
    pub http_addr: Option<String>,
    pub log_file: Option<Vec<u8>>,
    pub log_dir: Option<Vec<u8>>,
    pub log_keep_days: Option<u32>,
    /// The flag, or a true value in the environment.
    pub no_stdout: bool,
    /// A false value in the environment.
    pub no_stdout_off: bool,
    /// The flag, or a true value in the environment.
    pub summary: bool,
    /// A false value in the environment.
    pub summary_off: bool,
    pub color: Option<ColorMode>,
    pub dry_run: bool,
    pub proxy_anthropic_endpoint: Option<String>,
    pub proxy_anthropic_transport: Option<ProxyTransportArg>,
    pub proxy_anthropic_headers: Vec<String>,
    pub proxy_openai_endpoint: Option<String>,
    pub proxy_openai_transport: Option<ProxyTransportArg>,
    pub proxy_openai_headers: Vec<String>,
    pub proxy_checkpoint_dir: Option<Vec<u8>>,
}

/// How many daily files are kept by default.
pub const DEFAULT_LOG_KEEP_DAYS: u32 = 10;

/// How many batches a route holds by default.
pub const DEFAULT_PROXY_QUEUE_CAPACITY: usize = 1024;

/// How long a forwarded request may take by default, in milliseconds.
pub const DEFAULT_PROXY_TIMEOUT_MS: u64 = 5000;

/// How often a forwarded request is tried again by default.
pub const DEFAULT_PROXY_RETRY_MAX: u32 = 8;

/// Where telemetry is kept.
pub enum LogSink {
    /// One file that is appended to.
    File(Vec<u8>),
    /// A directory of daily files, and how many of them are kept.
    Directory { dir: Vec<u8>, keep_days: u32 },
}

/// Where telemetry is kept.
#[verifier::ext_equal]
pub enum SinkView {
    File(Seq<u8>),
    Directory { dir: Seq<u8>, keep_days: u32 },
}

impl View for LogSink {
    type V = SinkView;

    open spec fn view(&self) -> SinkView {
        match self {
            LogSink::File(p) => SinkView::File(p@),
            LogSink::Directory { dir, keep_days } => SinkView::Directory {
                dir: dir@,
                keep_days: *keep_days,
            },
        }
    }
}

/// Forwarding settings.
pub struct ProxySettings {
    pub queue_capacity: usize,
    pub timeout_ms: u64,
    pub retry_max: u32,
    pub checkpoint_dir: Vec<u8>,
    pub routes: Vec<ProxyRoute>,
}

/// Forwarding settings.
#[verifier::ext_equal]
pub struct ProxyView {
    pub queue_capacity: usize,
    pub timeout_ms: u64,
    pub retry_max: u32,
    pub checkpoint_dir: Seq<u8>,
    pub routes: Seq<RouteView>,
}

impl View for ProxySettings {
    type V = ProxyView;

    open spec fn view(&self) -> ProxyView {
        ProxyView {
            queue_capacity: self.queue_capacity,
            timeout_ms: self.timeout_ms,
            retry_max: self.retry_max,
            checkpoint_dir: self.checkpoint_dir@,
            routes: routes::route_views(self.routes@),
        }
    }
}

/// All settings.
pub struct Settings {
    pub grpc_addr: String,
    pub http_addr: String,
    pub log_sink: Option<LogSink>,
    pub no_stdout: bool,
    pub summary: bool,
    pub color: ColorMode,
    pub dry_run: bool,
    pub proxy: Option<ProxySettings>,
}

/// All settings.
#[verifier::ext_equal]
pub struct SettingsView {
    pub grpc_addr: Seq<char>,
    pub http_addr: Seq<char>,
    pub log_sink: Option<SinkView>,
    pub no_stdout: bool,
    pub summary: bool,
    pub color: ColorMode,
    pub dry_run: bool,
    pub proxy: Option<ProxyView>,
}

/// The view of an optional sink.
pub open spec fn sink_in(s: Option<LogSink>) -> Option<SinkView> {
    match s {
        Some(s) => Some(s@),
        None => None,
    }
}

/// The view of optional forwarding settings.
pub open spec fn proxy_in(p: Option<ProxySettings>) -> Option<ProxyView> {
    match p {
        Some(p) => Some(p@),
        None => None,
    }
}

impl View for Settings {
    type V = SettingsView;

    open spec fn view(&self) -> SettingsView {
        SettingsView {
            grpc_addr: self.grpc_addr@,
            http_addr: self.http_addr@,
            log_sink: sink_in(self.log_sink),
            no_stdout: self.no_stdout,
            summary: self.summary,
            color: self.color,
            dry_run: self.dry_run,
            proxy: proxy_in(self.proxy),
        }
    }
}

/// The first value that is given.
pub open spec fn first_of<T>(a: Option<T>, b: Option<T>, default: T) -> T {
    match a {
        Some(x) => x,
        None => match b {
            Some(x) => x,
            None => default,
        },
    }
}

/// The first address that is given.
pub open spec fn first_text(a: Option<String>, b: Option<String>, default: Seq<char>) -> Seq<char> {
    match a {
        Some(x) => x@,
        None => match b {
            Some(x) => x@,
            None => default,
        },
    }
}

/// A sink out of a file or a directory; nothing where neither is given.
pub open spec fn sink_of(
    file: Option<Seq<u8>>,
    dir: Option<Seq<u8>>,
    keep_days: u32,
    home: Option<Seq<u8>>,
) -> Option<SinkView> {
    if file is Some {
        Some(SinkView::File(crate::path::expanded(file->0, home)))
    } else if dir is Some {
        Some(SinkView::Directory { dir: crate::path::expanded(dir->0, home), keep_days })
    } else {
        None
    }
}

/// Where telemetry is kept. What the command line says goes before the
/// configuration file, whichever of the two it names; neither may name both.
pub open spec fn chosen_sink(cli: Cli, config: Config, home: Option<Seq<u8>>) -> Result<
    Option<SinkView>,
    Refusal,
> {
    let keep_days = first_of(cli.log_keep_days, config.log_keep_days, DEFAULT_LOG_KEEP_DAYS);
    let file = crate::path::bytes_in(cli.log_file);
    let dir = crate::path::bytes_in(cli.log_dir);
    let config_file = crate::path::bytes_in(config.log_file);
    let config_dir = crate::path::bytes_in(config.log_dir);
    if file is Some && dir is Some {
        Err(Refusal::CliSinksConflict)
    } else if file is Some || dir is Some {
        Ok(sink_of(file, dir, keep_days, home))
    } else if config_file is Some && config_dir is Some {
        Err(Refusal::ConfigSinksConflict)
    } else {
        Ok(sink_of(config_file, config_dir, keep_days, home))
    }
}

/// The directory for forwarding checkpoints, next to where telemetry is kept.
pub open spec fn checkpoint_beside(sink: SinkView) -> Seq<u8> {
    let base = match sink {
        SinkView::File(p) => match crate::path::parent_of(p) {
            Some(d) => d,
            None => crate::config::ascii_bytes("."@),
        },
        SinkView::Directory { dir, .. } => dir,
    };
    crate::path::joined(base, crate::config::ascii_bytes(".otel-logger-proxy"@))
}

/// What the command line says of the Anthropic route.
pub open spec fn anthropic_args(cli: Cli) -> VendorArgs {
    VendorArgs {
        endpoint: cli.proxy_anthropic_endpoint,
        transport: cli.proxy_anthropic_transport,
        headers: cli.proxy_anthropic_headers,
    }
}

/// What the command line says of the OpenAI route.
pub open spec fn openai_args(cli: Cli) -> VendorArgs {
    VendorArgs {
        endpoint: cli.proxy_openai_endpoint,
        transport: cli.proxy_openai_transport,
        headers: cli.proxy_openai_headers,
    }
}

/// The value if it is positive, else the default.
pub open spec fn positive_or(a: Option<u64>, default: u64) -> u64 {
    match a {
        Some(n) if n > 0 => n,
        _ => default,
    }
}

/// The size if it is positive, else the default.
pub open spec fn positive_size_or(a: Option<usize>, default: usize) -> usize {
    match a {
        Some(n) if n > 0 => n,
        _ => default,
    }
}

/// Forwarding settings: none without routes; with routes no service may have
/// two of them, and telemetry has to be kept.
pub open spec fn chosen_proxy(
    anthropic: VendorArgs,
    openai: VendorArgs,
    cli_checkpoint: Option<Seq<u8>>,
    config: ProxyTable,
    sink: Option<SinkView>,
    home: Option<Seq<u8>>,
    env: Seq<EnvVar>,
) -> Result<Option<ProxyView>, Refusal> {
    match routes::all_routes(anthropic, openai, config.routes, env) {
        Err(e) => Err(e),
        Ok(routes) => if routes.len() == 0 {
            Ok(None)
        } else if routes::claimed_twice(routes::claims(routes), 0) is Some {
            Err(routes::claimed_twice(routes::claims(routes), 0)->0)
        } else if sink is None {
            Err(Refusal::NoOutbox)
        } else {
            Ok(
                Some(
                    ProxyView {
                        queue_capacity: positive_size_or(
                            config.queue_capacity,
                            DEFAULT_PROXY_QUEUE_CAPACITY,
                        ),
                        timeout_ms: positive_or(config.timeout_ms, DEFAULT_PROXY_TIMEOUT_MS),
                        retry_max: match config.retry_max {
                            Some(n) => n,
                            None => DEFAULT_PROXY_RETRY_MAX,
                        },
                        checkpoint_dir: if cli_checkpoint is Some {
                            crate::path::expanded(cli_checkpoint->0, home)
                        } else if config.checkpoint_dir is Some {
                            crate::path::expanded(config.checkpoint_dir->0, home)
                        } else {
                            checkpoint_beside(sink->0)
                        },
                        routes,
                    },
                ),
            )
        },
    }
}

/// A flag: set on the command line, or in the configuration file unless the
/// environment turns it off.
pub open spec fn flag(on: bool, off: bool, config: Option<bool>) -> bool {
    on || (!off && config == Some(true))
}

/// What settings come to.
pub open spec fn merged(
    cli: Cli,
    config: Config,
    home: Option<Seq<u8>>,
    env: Seq<EnvVar>,
) -> Result<SettingsView, Refusal> {
    match chosen_sink(cli, config, home) {
        Err(e) => Err(e),
        Ok(sink) => match chosen_proxy(
            anthropic_args(cli),
            openai_args(cli),
            crate::path::bytes_in(cli.proxy_checkpoint_dir),
            crate::config::table_of(config),
            sink,
            home,
            env,
        ) {
            Err(e) => Err(e),
            Ok(proxy) => Ok(
                SettingsView {
                    grpc_addr: first_text(cli.grpc_addr, config.grpc_addr, "0.0.0.0:4317"@),
                    http_addr: first_text(cli.http_addr, config.http_addr, "0.0.0.0:4318"@),
                    log_sink: sink,
                    no_stdout: flag(cli.no_stdout, cli.no_stdout_off, config.no_stdout),
                    summary: flag(cli.summary, cli.summary_off, config.summary),
                    color: first_of(cli.color, config.color, ColorMode::Auto),
                    dry_run: cli.dry_run,
                    proxy,
                },
            ),
        },
    }
}

fn make_sink(
    file: Option<Vec<u8>>,
    dir: Option<Vec<u8>>,
    keep_days: u32,
    home: &Option<Vec<u8>>,
) -> (r: Option<LogSink>)
    ensures
        sink_in(r) == sink_of(
            crate::path::bytes_in(file),
            crate::path::bytes_in(dir),
            keep_days,
            crate::path::bytes_in(*home),
        ),
{
    match file {
        Some(p) => Some(LogSink::File(expand_user_path(p, home))),
        None => match dir {
            Some(d) => Some(LogSink::Directory { dir: expand_user_path(d, home), keep_days }),
            None => None,
        },
    }
}

/// The directory for forwarding checkpoints by default.
pub fn default_checkpoint_dir(sink: &LogSink) -> (r: Vec<u8>)
    ensures
        r@ == checkpoint_beside(sink@),
{
    proof {
        reveal_strlit(".");
        reveal_strlit(".otel-logger-proxy");
    }
    let base = match sink {
        LogSink::File(p) => match parent(p) {
            Some(d) => d,
            None => bytes_of("."),
        },
        LogSink::Directory { dir, keep_days: _ } => copy_all(dir),
    };
    join(&base, &bytes_of(".otel-logger-proxy"))
}

/// Makes the forwarding settings.
pub fn resolve_proxy_settings(
    anthropic: VendorArgs,
    openai: VendorArgs,
    cli_checkpoint: Option<Vec<u8>>,
    config: ProxyConfig,
    sink: &Option<LogSink>,
    home: &Option<Vec<u8>>,
    env: &Vec<EnvVar>,
) -> (r: Result<Option<ProxySettings>, SettingsError>)
    ensures
        match chosen_proxy(
            anthropic,
            openai,
            crate::path::bytes_in(cli_checkpoint),
            config@,
            sink_in(*sink),
            crate::path::bytes_in(*home),
            env@,
        ) {
            Ok(v) => r matches Ok(p) && proxy_in(p) == v,
            Err(e) => r matches Err(x) && x@ == e,
        },
{
    let routes = match build_routes(anthropic, openai, &config.routes, env) {
        Ok(routes) => routes,
        Err(e) => {
            return Err(e);
        },
    };
    assert(routes::route_views(routes@).len() == routes@.len());
    if routes.len() == 0 {
        return Ok(None);
    }
    if let Err(e) = check_claims(&routes) {
        return Err(e);
    }
    let kept = match sink {
        Some(s) => s,
        None => {
            return Err(SettingsError::NoOutbox);
        },
    };
    let checkpoint_dir = match cli_checkpoint {
        Some(d) => expand_user_path(d, home),
        None => match config.checkpoint_dir {
            Some(d) => expand_user_path(d, home),
            None => default_checkpoint_dir(kept),
        },
    };
    Ok(
        Some(
            ProxySettings {
                queue_capacity: match config.queue_capacity {
                    Some(n) if n > 0 => n,
                    _ => DEFAULT_PROXY_QUEUE_CAPACITY,
                },
                timeout_ms: match config.timeout_ms {
                    Some(n) if n > 0 => n,
                    _ => DEFAULT_PROXY_TIMEOUT_MS,
                },
                retry_max: match config.retry_max {
                    Some(n) => n,
                    None => DEFAULT_PROXY_RETRY_MAX,
                },
                checkpoint_dir,
                routes,
            },
        ),
    )
}

fn text_or(a: Option<String>, b: Option<String>, default: &str) -> (r: String)
    ensures
        r@ == first_text(a, b, default@),
{
    match a {
        Some(x) => x,
        None => match b {
            Some(x) => x,
            None => default.to_owned(),
        },
    }
}

fn is_on(on: bool, off: bool, config: Option<bool>) -> (r: bool)
    ensures
        r == flag(on, off, config),
{
    match config {
        Some(true) => on || !off,
        _ => on,
    }
}

impl Settings {
    /// Merges the command line, the configuration file and the defaults, in
    /// this order of precedence. `home` is the home directory, `env` the
    /// environment that header values may refer to.
    pub fn merge_with_home(
        cli: Cli,
        config: Config,
        home: &Option<Vec<u8>>,
        env: &Vec<EnvVar>,
    ) -> (r: Result<Settings, SettingsError>)
        ensures
            match merged(cli, config, crate::path::bytes_in(*home), env@) {
                Ok(v) => r matches Ok(x) && x@ == v,
                Err(e) => r matches Err(x) && x@ == e,
            },
    {
        let keep_days: u32 = match cli.log_keep_days {
            Some(n) => n,
            None => match config.log_keep_days {
                Some(n) => n,
                None => DEFAULT_LOG_KEEP_DAYS,
            },
        };
        if cli.log_file.is_some() && cli.log_dir.is_some() {
            return Err(SettingsError::CliSinksConflict);
        }
        let log_sink = if cli.log_file.is_some() || cli.log_dir.is_some() {
            make_sink(cli.log_file, cli.log_dir, keep_days, home)
        } else {
            if config.log_file.is_some() && config.log_dir.is_some() {
                return Err(SettingsError::ConfigSinksConflict);
            }
            make_sink(config.log_file, config.log_dir, keep_days, home)
        };
        let proxy_config = match config.proxy {
            Some(p) => p,
            None => ProxyConfig::default(),
        };
        let proxy = match resolve_proxy_settings(
            VendorArgs {
                endpoint: cli.proxy_anthropic_endpoint,
                transport: cli.proxy_anthropic_transport,
                headers: cli.proxy_anthropic_headers,
            },
            VendorArgs {
                endpoint: cli.proxy_openai_endpoint,
                transport: cli.proxy_openai_transport,
                headers: cli.proxy_openai_headers,
            },
            cli.proxy_checkpoint_dir,
            proxy_config,
            &log_sink,
            home,
            env,
        ) {
            Ok(p) => p,
            Err(e) => {
                return Err(e);
            },
        };
        Ok(
            Settings {
                grpc_addr: text_or(cli.grpc_addr, config.grpc_addr, "0.0.0.0:4317"),
                http_addr: text_or(cli.http_addr, config.http_addr, "0.0.0.0:4318"),
                log_sink,
                no_stdout: is_on(cli.no_stdout, cli.no_stdout_off, config.no_stdout),
                summary: is_on(cli.summary, cli.summary_off, config.summary),
                color: match cli.color {
                    Some(c) => c,
                    None => match config.color {
                        Some(c) => c,
                        None => ColorMode::Auto,
                    },
                },
                dry_run: cli.dry_run,
                proxy,
            },
        )
    }

    /// Whether to warn that standard output grows without bound: it is written
    /// to, and is no terminal.
    pub fn warns_unrotated_stdout(&self, stdout_is_terminal: bool) -> (r: bool)
        ensures
            r == (!self.no_stdout && !stdout_is_terminal),
    {
        !self.no_stdout && !stdout_is_terminal
    }
}

/// What the command line says of the sink goes before the configuration file,
/// even where the two name different kinds of sink.
pub proof fn law_command_line_sink_goes_first(
    cli: Cli,
    config: Config,
    other: Config,
    home: Option<Seq<u8>>,
)
    requires
        cli.log_file is Some || cli.log_dir is Some,
        cli.log_keep_days is Some || config.log_keep_days == other.log_keep_days,
    ensures
        chosen_sink(cli, config, home) == chosen_sink(cli, other, home),
{
}

/// What the command line gives goes before the configuration file, and that
/// before the default.
pub proof fn law_command_line_goes_first(
    cli: Cli,
    config: Config,
    home: Option<Seq<u8>>,
    env: Seq<EnvVar>,
)
    requires
        merged(cli, config, home, env) is Ok,
    ensures
        ({
            let s = merged(cli, config, home, env)->Ok_0;
            &&& cli.grpc_addr matches Some(a) ==> s.grpc_addr == a@
            &&& cli.http_addr matches Some(a) ==> s.http_addr == a@
            &&& cli.color matches Some(c) ==> s.color == c
            &&& cli.grpc_addr is None ==> (config.grpc_addr matches Some(a) ==> s.grpc_addr == a@)
            &&& cli.http_addr is None ==> (config.http_addr matches Some(a) ==> s.http_addr == a@)
            &&& cli.color is None ==> (config.color matches Some(c) ==> s.color == c)
            &&& cli.no_stdout ==> s.no_stdout
            &&& cli.summary ==> s.summary
        }),
{
}

/// Forwarding needs a place where telemetry is kept.
pub proof fn law_forwarding_needs_an_outbox(
    cli: Cli,
    config: Config,
    home: Option<Seq<u8>>,
    env: Seq<EnvVar>,
)
    requires
        merged(cli, config, home, env) is Ok,
        merged(cli, config, home, env)->Ok_0.proxy is Some,
    ensures
        merged(cli, config, home, env)->Ok_0.log_sink is Some,
        merged(cli, config, home, env)->Ok_0.proxy->0.routes.len() > 0,
        merged(cli, config, home, env)->Ok_0.proxy->0.queue_capacity > 0,
        merged(cli, config, home, env)->Ok_0.proxy->0.timeout_ms > 0,
{
}

/// What the environment turns off stays off, whatever the configuration file
/// says, unless the flag itself is given.
pub proof fn law_environment_turns_flags_off(config: Option<bool>)
    ensures
        !flag(false, true, config),
        flag(true, true, config),
{
}

} // verus!
