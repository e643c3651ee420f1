//! What the command line, the environment and the configuration file come to.

use otel_logger::agent::claude_code_name;
use otel_logger::cli::error::SettingsError;
use otel_logger::cli::headers::{
    merge_cli_headers, resolve_headers, EnvVar, Header, Headers,
};
use otel_logger::cli::routes::{ProxyRoute, ProxyTransportArg};
use otel_logger::cli::{
    default_checkpoint_dir, Cli, ColorMode, LogSink, ProxySettings, Settings,
    DEFAULT_LOG_KEEP_DAYS,
};
use otel_logger::config::{Config, ProxyConfig, ProxyRouteConfig, ProxySignal, ProxyTransport};

fn bytes(s: &str) -> Vec<u8> {
    s.as_bytes().to_vec()
}

fn empty_cli() -> Cli {
    Cli {
        command: None,
        config: None,
        grpc_addr: None,
        http_addr: None,
        log_file: None,
        log_dir: None,
        log_keep_days: None,
        no_stdout: false,
        no_stdout_off: false,
        summary: false,
        summary_off: false,
        color: None,
        dry_run: false,
        proxy_anthropic_endpoint: None,
        proxy_anthropic_transport: None,
        proxy_anthropic_headers: Vec::new(),
        proxy_openai_endpoint: None,
        proxy_openai_transport: None,
        proxy_openai_headers: Vec::new(),
        proxy_checkpoint_dir: None,
    }
}

fn merge(cli: Cli, config: Config) -> Result<Settings, SettingsError> {
    Settings::merge_with_home(cli, config, &None, &Vec::new())
}

fn accepted(r: Result<Settings, SettingsError>) -> Settings {
    match r {
        Ok(s) => s,
        Err(e) => panic!("refused: {}", e.message()),
    }
}

fn refused(r: Result<Settings, SettingsError>) -> String {
    match r {
        Ok(_) => panic!("the settings were accepted"),
        Err(e) => e.message(),
    }
}

fn file_of(s: Settings) -> Vec<u8> {
    match s.log_sink {
        Some(LogSink::File(path)) => path,
        _ => panic!("no file"),
    }
}

fn directory_of(s: Settings) -> (Vec<u8>, u32) {
    match s.log_sink {
        Some(LogSink::Directory { dir, keep_days }) => (dir, keep_days),
        _ => panic!("no directory"),
    }
}

#[test]
fn merge_defaults_when_nothing_specified() {
    let settings = accepted(merge(empty_cli(), Config::default()));
    assert_eq!(settings.grpc_addr.to_string(), "0.0.0.0:4317");
    assert_eq!(settings.http_addr.to_string(), "0.0.0.0:4318");
    assert!(settings.log_sink.is_none());
    assert!(!settings.no_stdout);
    assert!(!settings.summary);
    assert_eq!(settings.color, ColorMode::Auto);
    assert!(!settings.dry_run);
}

#[test]
fn merge_log_file_and_log_dir_are_mutually_exclusive() {
    let mut cli = empty_cli();
    cli.log_file = Some(bytes("/tmp/a.jsonl"));
    cli.log_dir = Some(bytes("/tmp/dir"));
    let err = refused(merge(cli, Config::default()));
    assert!(err.contains("mutually exclusive"));
    assert!(err.contains("--log-file"));
}

#[test]
fn merge_config_log_file_and_log_dir_are_mutually_exclusive() {
    let config = Config {
        log_file: Some(bytes("/tmp/a.jsonl")),
        log_dir: Some(bytes("/tmp/dir")),
        ..Config::default()
    };
    let err = refused(merge(empty_cli(), config));
    assert!(err.contains("mutually exclusive"));
}

#[test]
fn merge_log_file_from_cli_uses_file_sink() {
    let mut cli = empty_cli();
    cli.log_file = Some(bytes("/tmp/a.jsonl"));
    assert_eq!(file_of(accepted(merge(cli, Config::default()))), bytes("/tmp/a.jsonl"));
}

#[test]
fn merge_log_dir_from_config_uses_directory_sink_with_keep_days() {
    let config = Config {
        log_dir: Some(bytes("/var/log/otel")),
        log_keep_days: Some(7),
        ..Config::default()
    };
    let (dir, keep_days) = directory_of(accepted(merge(empty_cli(), config)));
    assert_eq!(dir, bytes("/var/log/otel"));
    assert_eq!(keep_days, 7);
}

#[test]
fn merge_log_dir_falls_back_to_default_keep_days() {
    let config = Config { log_dir: Some(bytes("/var/log/otel")), ..Config::default() };
    let (_, keep_days) = directory_of(accepted(merge(empty_cli(), config)));
    assert_eq!(keep_days, DEFAULT_LOG_KEEP_DAYS);
    assert_eq!(keep_days, 10);
}

#[test]
fn merge_cli_overrides_config_log_file() {
    let mut cli = empty_cli();
    cli.log_file = Some(bytes("/cli.jsonl"));
    let config = Config { log_file: Some(bytes("/config.jsonl")), ..Config::default() };
    assert_eq!(file_of(accepted(merge(cli, config))), bytes("/cli.jsonl"));
}

#[test]
fn merge_cli_log_file_overrides_config_log_dir() {
    let mut cli = empty_cli();
    cli.log_file = Some(bytes("/cli.jsonl"));
    let config = Config { log_dir: Some(bytes("/config-dir")), ..Config::default() };
    assert_eq!(file_of(accepted(merge(cli, config))), bytes("/cli.jsonl"));
}

#[test]
fn merge_cli_log_dir_overrides_config_log_file() {
    let mut cli = empty_cli();
    cli.log_dir = Some(bytes("/cli-dir"));
    let config = Config { log_file: Some(bytes("/config.jsonl")), ..Config::default() };
    assert_eq!(directory_of(accepted(merge(cli, config))).0, bytes("/cli-dir"));
}

#[test]
fn merge_boolean_flags_or_together() {
    let config =
        Config { no_stdout: Some(true), summary: Some(true), ..Config::default() };
    let settings = accepted(merge(empty_cli(), config));
    assert!(settings.no_stdout);
    assert!(settings.summary);
}

#[test]
fn merge_expands_tilde_in_config_log_dir() {
    let config = Config { log_dir: Some(bytes("~/tmp")), ..Config::default() };
    let home = Some(bytes("/Users/alice"));
    let settings =
        accepted(Settings::merge_with_home(empty_cli(), config, &home, &Vec::new()));
    assert_eq!(directory_of(settings).0, bytes("/Users/alice/tmp"));
}

#[test]
fn merge_expands_tilde_in_cli_log_file() {
    let mut cli = empty_cli();
    cli.log_file = Some(bytes("~/logs/otel.jsonl"));
    let home = Some(bytes("/Users/alice"));
    let settings =
        accepted(Settings::merge_with_home(cli, Config::default(), &home, &Vec::new()));
    assert_eq!(file_of(settings), bytes("/Users/alice/logs/otel.jsonl"));
}

#[test]
fn color_mode_auto_disables_when_no_color_env_is_set() {
    assert!(!ColorMode::Auto.enabled_for_stdout(true, true));
    assert!(!ColorMode::Auto.enabled_for_stdout(true, false));
    assert!(ColorMode::Auto.enabled_for_stdout(false, true));
    assert!(!ColorMode::Auto.enabled_for_stdout(false, false));
}

#[test]
fn color_mode_always_and_never_ignore_terminal_state() {
    for terminal in [false, true] {
        assert!(ColorMode::Always.enabled_for_stdout(false, terminal));
        assert!(!ColorMode::Never.enabled_for_stdout(false, terminal));
    }
}

fn cli_with_log_file() -> Cli {
    let mut cli = empty_cli();
    cli.log_file = Some(bytes("/tmp/otel.jsonl"));
    cli
}

fn anthropic_cli(headers: Vec<String>) -> Cli {
    let mut cli = cli_with_log_file();
    cli.proxy_anthropic_endpoint = Some("https://collector.example:4317".to_string());
    cli.proxy_anthropic_headers = headers;
    cli
}

fn proxy_of(r: Result<Settings, SettingsError>) -> ProxySettings {
    match accepted(r).proxy {
        Some(p) => p,
        None => panic!("no forwarding"),
    }
}

#[test]
fn merge_proxy_defaults_to_none_without_endpoints() {
    assert!(accepted(merge(cli_with_log_file(), Config::default())).proxy.is_none());
}

#[test]
fn merge_proxy_requires_jsonl_outbox() {
    let mut cli = empty_cli();
    cli.proxy_anthropic_endpoint = Some("https://collector.example:4317".to_string());
    let err = refused(merge(cli, Config::default()));
    assert!(err.contains("JSONL outbox"), "got: {err}");
}

#[test]
fn merge_proxy_anthropic_endpoint_uses_builtin_service_names() {
    let proxy = proxy_of(merge(anthropic_cli(vec![]), Config::default()));
    assert_eq!(proxy.routes.len(), 1);
    let route = &proxy.routes[0];
    assert_eq!(route.name, "anthropic");
    assert_eq!(route.service_names, vec![claude_code_name()]);
    assert_eq!(route.transport, ProxyTransport::Grpc);
    assert_eq!(route.endpoint, "https://collector.example:4317");
}

#[test]
fn the_anthropic_service_is_named_with_a_dash() {
    let name = claude_code_name();
    let (agent, rest) = name.split_at(6);
    assert_eq!(agent.len(), 6);
    assert_eq!(rest, "-code");
    assert_eq!(name.replace('-', "_"), "claude_code");
}

#[test]
fn merge_proxy_openai_endpoint_uses_codex_service_names() {
    let mut cli = cli_with_log_file();
    cli.proxy_openai_endpoint = Some("https://collector.example".to_string());
    cli.proxy_openai_transport = Some(ProxyTransportArg::HttpProtobuf);
    let proxy = proxy_of(merge(cli, Config::default()));
    assert_eq!(proxy.routes.len(), 1);
    let route = &proxy.routes[0];
    assert_eq!(route.name, "openai");
    assert_eq!(
        route.service_names,
        vec![
            "codex_cli_rs".to_string(),
            "codex_exec".to_string(),
            "codex-app-server".to_string(),
        ]
    );
    assert_eq!(route.transport, ProxyTransport::HttpProtobuf);
}

fn header<'a>(headers: &'a [Header], key: &str) -> Option<&'a str> {
    headers.iter().find(|h| h.key == key).map(|h| h.value.as_str())
}

#[test]
fn merge_proxy_headers_resolve_env_prefix() {
    let key = "OTEL_LOGGER_TEST_TOKEN";
    let env = vec![EnvVar { name: key.to_string(), value: "s3cret-value".to_string() }];
    let cli =
        anthropic_cli(vec![format!("Authorization=env:{key}"), "X-Tenant=corp".to_string()]);
    let proxy = proxy_of(Settings::merge_with_home(cli, Config::default(), &None, &env));
    let route = &proxy.routes[0];
    assert_eq!(header(&route.headers, "Authorization"), Some("s3cret-value"));
    assert_eq!(header(&route.headers, "X-Tenant"), Some("corp"));
}

#[test]
fn merge_proxy_rejects_missing_env_var() {
    let cli = anthropic_cli(vec![
        "Authorization=env:OTEL_LOGGER_NEVER_SET_TOKEN_XYZ".to_string(),
    ]);
    let err = refused(merge(cli, Config::default()));
    assert!(err.contains("OTEL_LOGGER_NEVER_SET_TOKEN_XYZ"), "got: {err}");
}

#[test]
fn merge_proxy_rejects_control_char_in_header_value() {
    let err = refused(merge(
        anthropic_cli(vec!["X-Bad=line1\nline2".to_string()]),
        Config::default(),
    ));
    assert!(err.contains("CR/LF"), "got: {err}");
    let err =
        refused(merge(anthropic_cli(vec!["X-Bad=a\u{1}b".to_string()]), Config::default()));
    assert!(err.contains("control character at position 1"), "got: {err}");
}

#[test]
fn merge_proxy_reserved_header_is_rejected() {
    let err =
        refused(merge(anthropic_cli(vec!["Content-Length=999".to_string()]), Config::default()));
    assert!(err.contains("reserved"), "got: {err}");
}

fn route(name: &str, services: Vec<String>, endpoint: &str) -> ProxyRouteConfig {
    ProxyRouteConfig {
        name: name.to_string(),
        service_names: services,
        signal_types: vec![],
        transport: None,
        endpoint: endpoint.to_string(),
        headers: Headers::new(),
    }
}

fn config_with(routes: Vec<ProxyRouteConfig>) -> Config {
    Config {
        proxy: Some(ProxyConfig { routes, ..ProxyConfig::default() }),
        ..Config::default()
    }
}

#[test]
fn merge_proxy_config_route_overrides_service_names() {
    let services = vec![claude_code_name(), claude_code_name().replace("code", "experimental")];
    let mut anthropic = route("anthropic", services.clone(), "https://custom.example");
    anthropic.transport = Some(ProxyTransport::HttpProtobuf);
    let proxy = proxy_of(merge(cli_with_log_file(), config_with(vec![anthropic])));
    assert_eq!(proxy.routes.len(), 1);
    let route = &proxy.routes[0];
    assert_eq!(route.service_names, services);
    assert_eq!(route.transport, ProxyTransport::HttpProtobuf);
    assert_eq!(route.endpoint, "https://custom.example");
}

#[test]
fn merge_proxy_service_name_conflict_is_rejected() {
    let config = config_with(vec![
        route("anthropic", vec![claude_code_name()], "https://a.example"),
        route("conflicting", vec![claude_code_name()], "https://b.example"),
    ]);
    let err = refused(merge(cli_with_log_file(), config));
    assert!(err.contains(&claude_code_name()), "got: {err}");
    assert!(err.contains("conflicting"), "got: {err}");
}

#[test]
fn a_false_value_in_the_environment_turns_a_flag_off() {
    let mut cli = empty_cli();
    cli.no_stdout_off = true;
    cli.summary_off = true;
    let config =
        Config { no_stdout: Some(true), summary: Some(true), ..Config::default() };
    let settings = accepted(merge(cli, config));
    assert!(!settings.no_stdout);
    assert!(!settings.summary);
}

#[test]
fn forwarding_takes_its_defaults_and_leaves_zero_out() {
    let proxy = proxy_of(merge(anthropic_cli(vec![]), Config::default()));
    assert_eq!(proxy.queue_capacity, 1024);
    assert_eq!(proxy.timeout_ms, 5000);
    assert_eq!(proxy.retry_max, 8);
    assert_eq!(proxy.checkpoint_dir, bytes("/tmp/.otel-logger-proxy"));

    let config = Config {
        proxy: Some(ProxyConfig {
            queue_capacity: Some(0),
            timeout_ms: Some(0),
            retry_max: Some(0),
            checkpoint_dir: Some(bytes("~/cp")),
            routes: vec![],
        }),
        ..Config::default()
    };
    let home = Some(bytes("/home/x"));
    let proxy = proxy_of(Settings::merge_with_home(
        anthropic_cli(vec![]),
        config,
        &home,
        &Vec::new(),
    ));
    assert_eq!(proxy.queue_capacity, 1024);
    assert_eq!(proxy.timeout_ms, 5000);
    assert_eq!(proxy.retry_max, 0);
    assert_eq!(proxy.checkpoint_dir, bytes("/home/x/cp"));
}

#[test]
fn checkpoints_stand_beside_the_file_or_in_the_directory() {
    assert_eq!(
        default_checkpoint_dir(&LogSink::File(bytes("/var/log/a.jsonl"))),
        bytes("/var/log/.otel-logger-proxy")
    );
    assert_eq!(
        default_checkpoint_dir(&LogSink::Directory { dir: bytes("/var/log"), keep_days: 3 }),
        bytes("/var/log/.otel-logger-proxy")
    );
}

#[test]
fn each_refusal_says_what_is_wrong() {
    let twice = config_with(vec![
        route("x", vec!["a".into()], "https://a"),
        route("x", vec!["b".into()], "https://b"),
    ]);
    assert_eq!(
        refused(merge(cli_with_log_file(), twice)),
        "duplicate proxy route name `x` in configuration"
    );
    assert_eq!(
        refused(merge(anthropic_cli(vec!["nonsense".into()]), Config::default())),
        "proxy header `nonsense` must use KEY=VALUE format"
    );
    assert_eq!(
        refused(merge(anthropic_cli(vec!["=v".into()]), Config::default())),
        "proxy header `=v` has empty key"
    );
    let mut cli = cli_with_log_file();
    cli.proxy_openai_transport = Some(ProxyTransportArg::Grpc);
    assert_eq!(
        refused(merge(cli, Config::default())),
        "--proxy-openai-transport/--proxy-openai-header require --proxy-openai-endpoint"
    );
    assert_eq!(
        refused(merge(cli_with_log_file(), config_with(vec![route("x", vec!["a".into()], "")]))),
        "proxy route `x` has empty endpoint"
    );
    assert_eq!(
        refused(merge(cli_with_log_file(), config_with(vec![route("x", vec![], "https://a")]))),
        "custom proxy route `x` must specify at least one `service_names` entry"
    );
    assert_eq!(
        refused(merge(
            cli_with_log_file(),
            config_with(vec![route("x", vec!["".into()], "https://a")])
        )),
        "proxy route `x` has an empty `service_names` entry"
    );
    assert_eq!(
        refused(merge(anthropic_cli(vec!["X Y=v".into()]), Config::default())),
        "proxy route `anthropic` header key `X Y` contains invalid character ` `"
    );
    let mut headers = Headers::new();
    headers.set("".into(), "v".into());
    let mut custom = route("x", vec!["a".into()], "https://a");
    custom.headers = headers;
    assert_eq!(
        refused(merge(cli_with_log_file(), config_with(vec![custom]))),
        "proxy route `x` has an empty header key"
    );
}

#[test]
fn standard_output_that_nobody_rotates_is_warned_of() {
    let settings = accepted(merge(empty_cli(), Config::default()));
    assert!(settings.warns_unrotated_stdout(false));
    assert!(!settings.warns_unrotated_stdout(true));
    let quiet = accepted(merge(
        empty_cli(),
        Config { no_stdout: Some(true), ..Config::default() },
    ));
    assert!(!quiet.warns_unrotated_stdout(false));
}

#[test]
fn a_route_takes_the_signals_it_names() {
    let r = ProxyRoute {
        name: "x".into(),
        service_names: vec!["a".into()],
        signals: vec![ProxySignal::Logs, ProxySignal::Metrics],
        transport: ProxyTransport::Grpc,
        endpoint: "https://a".into(),
        headers: vec![],
    };
    assert!(r.accepts_signal(ProxySignal::Logs));
    assert!(!r.accepts_signal(ProxySignal::Traces));
    assert!(r.accepts_signal(ProxySignal::Metrics));
}

#[test]
fn signals_are_sorted_and_all_of_them_by_default() {
    let mut custom = route("x", vec!["a".into()], "https://a");
    custom.signal_types = vec![ProxySignal::Metrics, ProxySignal::Logs, ProxySignal::Metrics];
    let plain = route("y", vec!["b".into()], "https://b");
    let proxy = proxy_of(merge(cli_with_log_file(), config_with(vec![custom, plain])));
    assert_eq!(proxy.routes[0].signals, vec![ProxySignal::Logs, ProxySignal::Metrics]);
    assert_eq!(proxy.routes[1].signals, ProxySignal::all());
}

fn as_sent(headers: &Headers) -> Vec<(String, String)> {
    match resolve_headers(headers, &Vec::new(), &"r".to_string()) {
        Ok(sent) => sent.into_iter().map(|h| (h.key, h.value)).collect(),
        Err(e) => panic!("refused: {}", e.message()),
    }
}

fn pair(key: &str, value: &str) -> (String, String) {
    (key.to_string(), value.to_string())
}

#[test]
fn headers_stand_in_the_order_of_their_keys() {
    let mut headers = Headers::new();
    for (key, value) in [("m", "1"), ("z", "2"), ("a", "3"), ("m", "4"), ("B", "5")] {
        headers.set(key.to_string(), value.to_string());
    }
    let expected = vec![pair("B", "5"), pair("a", "3"), pair("m", "4"), pair("z", "2")];
    assert_eq!(as_sent(&headers), expected);
    assert_eq!(as_sent(&headers.duplicate()), expected);
}

#[test]
fn headers_before_a_bad_one_are_set() {
    let mut headers = Headers::new();
    headers.set("a".to_string(), "1".to_string());
    let entries = vec![" b = x=y ".to_string(), "a=2".to_string()];
    assert!(merge_cli_headers(&mut headers, &entries).is_ok());
    assert_eq!(as_sent(&headers), vec![pair("a", "2"), pair("b", " x=y ")]);
    for bad in ["no-sign", " =v"] {
        let mut headers = Headers::new();
        headers.set("a".to_string(), "1".to_string());
        let entries = vec!["b=2".to_string(), bad.to_string(), "c=3".to_string()];
        assert!(merge_cli_headers(&mut headers, &entries).is_err());
        assert_eq!(as_sent(&headers), vec![pair("a", "1"), pair("b", "2")]);
    }
}

#[test]
fn the_order_of_configured_routes_does_not_matter() {
    let made = |order: [usize; 4]| {
        let names = ["zeta", "openai", "alpha", "anthropic"];
        let routes = order
            .iter()
            .map(|i| route(names[*i], vec![format!("svc-{i}")], "https://c.example"))
            .collect();
        let proxy = proxy_of(merge(cli_with_log_file(), config_with(routes)));
        proxy.routes.into_iter().map(|r| (r.name, r.service_names)).collect::<Vec<_>>()
    };
    let first = made([0, 1, 2, 3]);
    let names: Vec<&str> = first.iter().map(|r| r.0.as_str()).collect();
    assert_eq!(names, vec!["anthropic", "openai", "alpha", "zeta"]);
    assert_eq!(made([3, 2, 1, 0]), first);
    assert_eq!(made([2, 0, 3, 1]), first);
}
