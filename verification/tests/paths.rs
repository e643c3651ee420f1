//! Paths below the home directory, and where the configuration file is.

use otel_logger::config::{
    default_config_path, Config, ConfigSource, InitOutcome, InitProfile, ProxySignal,
};
use otel_logger::path::{expand_user_path, join, parent};

fn bytes(s: &str) -> Vec<u8> {
    s.as_bytes().to_vec()
}

#[test]
fn expand_user_path_replaces_leading_tilde_with_home() {
    let home = Some(bytes("/Users/alice"));
    assert_eq!(expand_user_path(bytes("~"), &home), bytes("/Users/alice"));
    assert_eq!(expand_user_path(bytes("~/tmp"), &home), bytes("/Users/alice/tmp"));
    assert_eq!(expand_user_path(bytes("~/a/b/c"), &home), bytes("/Users/alice/a/b/c"));
}

#[test]
fn expand_user_path_leaves_non_tilde_paths_untouched() {
    let home = Some(bytes("/Users/alice"));
    for raw in ["/var/log/otel", "tmp/foo", "/opt/~/cache", "~bob/tmp"] {
        assert_eq!(expand_user_path(bytes(raw), &home), bytes(raw), "must stay: {raw}");
    }
}

#[test]
fn expand_user_path_returns_input_when_home_is_unset() {
    assert_eq!(expand_user_path(bytes("~/tmp"), &None), bytes("~/tmp"));
}

#[test]
fn expand_user_path_expands_non_utf8_paths() {
    let home = Some(bytes("/Users/alice"));
    let raw = vec![b'~', b'/', b'x', 0xFF];
    let mut expected = bytes("/Users/alice/x");
    expected.push(0xFF);
    assert_eq!(expand_user_path(raw, &home), expected);
}

#[test]
fn expand_user_path_treats_empty_home_as_unset() {
    let empty = Some(Vec::new());
    assert_eq!(expand_user_path(bytes("~/tmp"), &empty), bytes("~/tmp"));
    assert_eq!(expand_user_path(bytes("~"), &empty), bytes("~"));
}

#[test]
fn expanding_twice_changes_nothing_more() {
    let home = Some(bytes("/home/x"));
    let once = expand_user_path(bytes("~/logs"), &home);
    assert_eq!(expand_user_path(once.clone(), &home), once);
}

#[test]
fn what_follows_the_tilde_is_taken_by_its_components() {
    for home in ["/home/x", "/home/x/", "/", "rel"] {
        for path in [
            "~/", "~//", "~/.", "~/./", "~/x", "~/x.log/", "~/./x", "~//x", "~/.//./x/./", "~/x/./y", "~/x//y/",
            "~/..", "~/../x/.", "~/.x", "~/x.", "~/x/.y", "~/...", "~/~", "~/~/x",
        ] {
            let rest = std::path::Path::new(path).strip_prefix("~/").unwrap();
            let joined = std::path::Path::new(home).join(rest);
            let expected = bytes(joined.to_str().unwrap());
            assert_eq!(expand_user_path(bytes(path), &Some(bytes(home))), expected, "{home} {path}");
        }
    }
}

#[test]
fn parents_and_joins_follow_unix_paths() {
    assert_eq!(parent(&bytes("/var/log/a.jsonl")), Some(bytes("/var/log")));
    assert_eq!(parent(&bytes("/a.jsonl")), Some(bytes("/")));
    assert_eq!(parent(&bytes("a.jsonl")), Some(bytes("")));
    assert_eq!(parent(&bytes("/")), None);
    assert_eq!(parent(&bytes("")), None);
    for path in [
        "", "/", "//", ".", "./", "./.", "..", "../", "/.", "/./", "x", "x/", "x/.", "x/./", "./x", "./x/.",
        "x/./y", "x//y", "x/../y", "/x", "//x", "/x/.", "/./x", "/x/./y/./", ".x", "x.", "x/.y", "x/y.",
        "..x", "x/..", "./..", "x/y/z", "/x//y//",
    ] {
        let expected = std::path::Path::new(path).parent().map(|p| bytes(p.to_str().unwrap()));
        assert_eq!(parent(&bytes(path)), expected, "{path}");
    }
    assert_eq!(join(&bytes("/var"), &bytes("log")), bytes("/var/log"));
    assert_eq!(join(&bytes("/var/"), &bytes("log")), bytes("/var/log"));
}

#[test]
fn the_default_file_is_below_xdg_or_home() {
    assert_eq!(
        default_config_path(&Some(bytes("/xdg")), &Some(bytes("/home/x"))),
        Some(bytes("/xdg/otel-logger/config.toml"))
    );
    assert_eq!(
        default_config_path(&Some(bytes("")), &Some(bytes("/home/x"))),
        Some(bytes("/home/x/.config/otel-logger/config.toml"))
    );
    assert_eq!(default_config_path(&None, &Some(bytes(""))), None);
    assert_eq!(default_config_path(&None, &None), None);
}

#[test]
fn an_explicit_file_must_exist_and_its_tilde_is_expanded() {
    let home = Some(bytes("/home/x"));
    match Config::locate(Some(bytes("~/c.toml")), &None, &home) {
        ConfigSource::Required(p) => assert_eq!(p, bytes("/home/x/c.toml")),
        _ => panic!("an explicit path is required"),
    }
    match Config::locate(None, &None, &home) {
        ConfigSource::Optional(p) => {
            assert_eq!(p, bytes("/home/x/.config/otel-logger/config.toml"))
        }
        _ => panic!("the default path is optional"),
    }
    assert!(matches!(Config::locate(None, &None, &None), ConfigSource::Nowhere));
}

#[test]
fn writing_a_starter_file_reports_what_it_did() {
    assert_eq!(InitOutcome::of(false, false), InitOutcome::Created);
    assert_eq!(InitOutcome::of(true, false), InitOutcome::Created);
    assert_eq!(InitOutcome::of(true, true), InitOutcome::Overwrote);
    assert_eq!(InitProfile::for_flag(true), InitProfile::Daemon);
    assert_eq!(InitProfile::for_flag(false), InitProfile::Default);
}

#[test]
fn there_are_three_signals() {
    assert_eq!(
        ProxySignal::all(),
        vec![ProxySignal::Logs, ProxySignal::Traces, ProxySignal::Metrics]
    );
}
