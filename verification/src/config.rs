//! The configuration file, and where it stands.

use crate::cli::headers::Headers;
use crate::cli::ColorMode;
use crate::path::{expand_user_path, join};
use vstd::prelude::*;

verus! {

/// How telemetry is forwarded.
#[derive(Clone, Copy, Debug, PartialEq, Eq, Structural)]
pub enum ProxyTransport {
    /// OTLP over gRPC.
    Grpc,
    /// OTLP over HTTP with protobuf bodies.
    HttpProtobuf,
}

impl Default for ProxyTransport {
    fn default() -> (r: ProxyTransport)
        ensures
            r == ProxyTransport::Grpc,
    {
        ProxyTransport::Grpc
    }
}

/// A kind of telemetry.
#[derive(Clone, Copy, Debug, PartialEq, Eq, PartialOrd, Ord, Structural)]
pub enum ProxySignal {
    Logs,
    Traces,
    Metrics,
}

/// All kinds of telemetry, in order.
pub open spec fn all_signals() -> Seq<ProxySignal> {
    seq![ProxySignal::Logs, ProxySignal::Traces, ProxySignal::Metrics]
}

impl ProxySignal {
    /// All kinds of telemetry, in order.
    pub fn all() -> (r: Vec<ProxySignal>)
        ensures
            r@ == all_signals(),
    {
        let mut out: Vec<ProxySignal> = Vec::new();
        out.push(ProxySignal::Logs);
        out.push(ProxySignal::Traces);
        out.push(ProxySignal::Metrics);
        assert(out@ =~= all_signals());
        out
    }
}

/// A route of the configuration file.
pub struct ProxyRouteConfig {
    pub name: String,
    pub service_names: Vec<String>,
    pub signal_types: Vec<ProxySignal>,
    pub transport: Option<ProxyTransport>,
    pub endpoint: String,
    pub headers: Headers,
}

/// A route of the configuration file.
#[verifier::ext_equal]
pub struct RouteConfigView {
    pub name: Seq<char>,
    pub service_names: Seq<Seq<char>>,
    pub signal_types: Seq<ProxySignal>,
    pub transport: Option<ProxyTransport>,
    pub endpoint: Seq<char>,
    pub headers: Seq<(Seq<char>, Seq<char>)>,
}

impl View for ProxyRouteConfig {
    type V = RouteConfigView;

    open spec fn view(&self) -> RouteConfigView {
        RouteConfigView {
            name: self.name@,
            service_names: crate::text::texts(self.service_names@),
            signal_types: self.signal_types@,
            transport: self.transport,
            endpoint: self.endpoint@,
            headers: self.headers@,
        }
    }
}

/// The `[proxy]` table of the configuration file.
pub struct ProxyConfig {
    pub queue_capacity: Option<usize>,
    pub timeout_ms: Option<u64>,
    pub retry_max: Option<u32>,
    pub checkpoint_dir: Option<Vec<u8>>,
    pub routes: Vec<ProxyRouteConfig>,
}

/// The `[proxy]` table of the configuration file.
#[verifier::ext_equal]
pub struct ProxyTable {
    pub queue_capacity: Option<usize>,
    pub timeout_ms: Option<u64>,
    pub retry_max: Option<u32>,
    pub checkpoint_dir: Option<Seq<u8>>,
    pub routes: Seq<ProxyRouteConfig>,
}

impl View for ProxyConfig {
    type V = ProxyTable;

    open spec fn view(&self) -> ProxyTable {
        ProxyTable {
            queue_capacity: self.queue_capacity,
            timeout_ms: self.timeout_ms,
            retry_max: self.retry_max,
            checkpoint_dir: crate::path::bytes_in(self.checkpoint_dir),
            routes: self.routes@,
        }
    }
}

/// A table that says nothing.
pub open spec fn empty_table() -> ProxyTable {
    ProxyTable {
        queue_capacity: None,
        timeout_ms: None,
        retry_max: None,
        checkpoint_dir: None,
        routes: Seq::empty(),
    }
}

/// The `[proxy]` table, or an empty one.
pub open spec fn table_of(config: Config) -> ProxyTable {
    match config.proxy {
        Some(p) => p@,
        None => empty_table(),
    }
}

impl Default for ProxyConfig {
    fn default() -> (r: ProxyConfig)
        ensures
            r@ == empty_table(),
    {
        let r = ProxyConfig {
            queue_capacity: None,
            timeout_ms: None,
            retry_max: None,
            checkpoint_dir: None,
            routes: Vec::new(),
        };
        assert(r@ =~= empty_table());
        r
    }
}

/// The configuration file. Every key is optional.
pub struct Config {
    pub grpc_addr: Option<String>,
    pub http_addr: Option<String>,
    pub log_file: Option<Vec<u8>>,
    pub log_dir: Option<Vec<u8>>,
    pub log_keep_days: Option<u32>,
    pub no_stdout: Option<bool>,
    pub summary: Option<bool>,
    pub color: Option<ColorMode>,
    pub proxy: Option<ProxyConfig>,
}

impl Default for Config {
    fn default() -> (r: Config)
        ensures
            r.grpc_addr is None,
            r.http_addr is None,
            r.log_file is None,
            r.log_dir is None,
            r.log_keep_days is None,
            r.no_stdout is None,
            r.summary is None,
            r.color is None,
            r.proxy is None,
    {
        Config {
            grpc_addr: None,
            http_addr: None,
            log_file: None,
            log_dir: None,
            log_keep_days: None,
            no_stdout: None,
            summary: None,
            color: None,
            proxy: None,
        }
    }
}

/// The ASCII text as bytes.
pub open spec fn ascii_bytes(s: Seq<char>) -> Seq<u8> {
    Seq::new(s.len(), |i: int| s[i] as u8)
}

/// The bytes of an ASCII text.
pub fn bytes_of(s: &str) -> (r: Vec<u8>)
    requires
        forall|i: int| 0 <= i < s@.len() ==> (#[trigger] s@[i] as u32) < 128,
    ensures
        r@ == ascii_bytes(s@),
{
    let chars = crate::text::chars_of(s);
    let mut out: Vec<u8> = Vec::new();
    for i in 0..chars.len()
        invariant
            chars@ == s@,
            forall|i: int| 0 <= i < s@.len() ==> (#[trigger] s@[i] as u32) < 128,
            out@ == ascii_bytes(s@).take(i as int),
    {
        assert((s@[i as int] as u32) < 128);
        out.push(chars[i] as u8);
        assert(out@ =~= ascii_bytes(s@).take(i + 1));
    }
    assert(ascii_bytes(s@).take(s@.len() as int) =~= ascii_bytes(s@));
    out
}

/// The configuration file below a directory of configuration files.
pub open spec fn config_below(dir: Seq<u8>) -> Seq<u8> {
    crate::path::joined(
        crate::path::joined(dir, ascii_bytes("otel-logger"@)),
        ascii_bytes("config.toml"@),
    )
}

/// Where the configuration file stands by default: below `$XDG_CONFIG_HOME`, or
/// else below `$HOME/.config`. A variable that is set to nothing is not set.
pub open spec fn default_config_path_of(xdg: Option<Seq<u8>>, home: Option<Seq<u8>>) -> Option<
    Seq<u8>,
> {
    if xdg is Some && xdg->0.len() > 0 {
        Some(config_below(xdg->0))
    } else if home is Some && home->0.len() > 0 {
        Some(config_below(crate::path::joined(home->0, ascii_bytes(".config"@))))
    } else {
        None
    }
}

fn below(dir: &Vec<u8>) -> (r: Vec<u8>)
    ensures
        r@ == config_below(dir@),
{
    proof {
        reveal_strlit("otel-logger");
        reveal_strlit("config.toml");
    }
    join(&join(dir, &bytes_of("otel-logger")), &bytes_of("config.toml"))
}

/// Where the configuration file stands by default.
pub fn default_config_path(xdg: &Option<Vec<u8>>, home: &Option<Vec<u8>>) -> (r: Option<Vec<u8>>)
    ensures
        crate::path::bytes_in(r) == default_config_path_of(
            crate::path::bytes_in(*xdg),
            crate::path::bytes_in(*home),
        ),
{
    if let Some(x) = xdg {
        if x.len() > 0 {
            return Some(below(x));
        }
    }
    if let Some(h) = home {
        if h.len() > 0 {
            proof {
                reveal_strlit(".config");
            }
            return Some(below(&join(h, &bytes_of(".config"))));
        }
    }
    None
}

/// The configuration file to read.
pub enum ConfigSource {
    /// A file that has to be there.
    Required(Vec<u8>),
    /// A file that is read where it is there.
    Optional(Vec<u8>),
    /// No file at all.
    Nowhere,
}

impl Config {
    /// The file to read: the one that was asked for, which has to be there, or
    /// else the one at the default place.
    pub fn locate(
        explicit: Option<Vec<u8>>,
        xdg: &Option<Vec<u8>>,
        home: &Option<Vec<u8>>,
    ) -> (r: ConfigSource)
        ensures
            match explicit {
                Some(p) => r matches ConfigSource::Required(q) && q@ == crate::path::expanded(
                    p@,
                    crate::path::bytes_in(*home),
                ),
                None => match default_config_path_of(
                    crate::path::bytes_in(*xdg),
                    crate::path::bytes_in(*home),
                ) {
                    Some(p) => r matches ConfigSource::Optional(q) && q@ == p,
                    None => r is Nowhere,
                },
            },
    {
        match explicit {
            Some(p) => ConfigSource::Required(expand_user_path(p, home)),
            None => match default_config_path(xdg, home) {
                Some(p) => ConfigSource::Optional(p),
                None => ConfigSource::Nowhere,
            },
        }
    }
}

/// What became of a starter file.
#[derive(Clone, Copy, Debug, PartialEq, Eq, Structural)]
pub enum InitOutcome {
    Created,
    Overwrote,
}

/// Which starter file is written.
#[derive(Clone, Copy, Debug, PartialEq, Eq, Structural)]
pub enum InitProfile {
    Default,
    Daemon,
}

impl InitProfile {
    /// The profile for the `--daemon` flag.
    pub fn for_flag(daemon: bool) -> (r: InitProfile)
        ensures
            r == (if daemon {
                InitProfile::Daemon
            } else {
                InitProfile::Default
            }),
    {
        if daemon {
            InitProfile::Daemon
        } else {
            InitProfile::Default
        }
    }
}

impl InitOutcome {
    /// What became of a starter file that was written: it replaced one only
    /// where that was asked for and one was there.
    pub fn of(force: bool, existed: bool) -> (r: InitOutcome)
        ensures
            r == (if force && existed {
                InitOutcome::Overwrote
            } else {
                InitOutcome::Created
            }),
    {
        if force && existed {
            InitOutcome::Overwrote
        } else {
            InitOutcome::Created
        }
    }
}

proof fn lemma_ascii_byte(c: char)
    requires
        (c as int) < 128,
    ensures
        c as u8 == c as int,
{
}

/// Each character of an ASCII text is one byte of the same number.
pub proof fn law_ascii_text_as_bytes(s: Seq<char>)
    requires
        forall|i: int| 0 <= i < s.len() ==> (#[trigger] s[i] as int) < 128,
    ensures
        ascii_bytes(s).len() == s.len(),
        forall|i: int| 0 <= i < s.len() ==> ascii_bytes(s)[i] == #[trigger] s[i] as int,
{
    assert forall|i: int| 0 <= i < s.len() implies ascii_bytes(s)[i] == #[trigger] s[i] as int by {
        lemma_ascii_byte(s[i]);
    }
}

/// The configuration file is `otel-logger/config.toml` below the directory of
/// `XDG_CONFIG_HOME`, or else below `.config` in the home directory. A variable that is
/// set to nothing is not set.
pub proof fn law_where_the_configuration_file_is(dir: Seq<u8>, other: Option<Seq<u8>>)
    requires
        dir.len() > 0,
        dir.last() != 47,
    ensures
        default_config_path_of(Some(dir), other) == Some(
            dir + ascii_bytes("/otel-logger/config.toml"@),
        ),
        default_config_path_of(None, Some(dir)) == Some(
            dir + ascii_bytes("/.config/otel-logger/config.toml"@),
        ),
        default_config_path_of(Some(Seq::empty()), Some(dir)) == default_config_path_of(
            None,
            Some(dir),
        ),
        default_config_path_of(None, None) is None,
        default_config_path_of(Some(Seq::empty()), Some(Seq::empty())) is None,
{
    reveal_strlit("otel-logger");
    reveal_strlit("config.toml");
    reveal_strlit(".config");
    reveal_strlit("/otel-logger/config.toml");
    reveal_strlit("/.config/otel-logger/config.toml");
    let a = ascii_bytes("otel-logger"@);
    let b = ascii_bytes("config.toml"@);
    let c = ascii_bytes(".config"@);
    assert(a.len() == 11 && b.len() == 11 && c.len() == 7);
    let below = crate::path::joined(dir, a);
    assert(below =~= dir + seq![47u8] + a);
    assert(below.last() == a.last());
    assert(a.last() == 114);
    assert(crate::path::joined(below, b) =~= dir + ascii_bytes("/otel-logger/config.toml"@));
    let home = crate::path::joined(dir, c);
    assert(home =~= dir + seq![47u8] + c);
    assert(home.last() == c.last());
    assert(c.last() == 103);
    let deep = crate::path::joined(home, a);
    assert(deep =~= home + seq![47u8] + a);
    assert(deep.last() == a.last());
    assert(crate::path::joined(deep, b) =~= dir + ascii_bytes(
        "/.config/otel-logger/config.toml"@,
    ));
}

/// All kinds of telemetry are the three that there are.
pub proof fn law_all_signals(signal: ProxySignal)
    ensures
        all_signals().len() == 3,
        all_signals().contains(signal),
{
    assert(all_signals()[0] == ProxySignal::Logs);
    assert(all_signals()[1] == ProxySignal::Traces);
    assert(all_signals()[2] == ProxySignal::Metrics);
}

/// A starter file replaces one only where that was asked for and one was there, and is the
/// one for a daemon only where that was asked for.
pub proof fn law_starter_files(force: bool, existed: bool, daemon: bool, a: InitOutcome, b: InitProfile)
    requires
        call_ensures(InitOutcome::of, (force, existed), a),
        call_ensures(InitProfile::for_flag, (daemon,), b),
    ensures
        a == InitOutcome::Overwrote <==> force && existed,
        b == InitProfile::Daemon <==> daemon,
{
}

/// A configuration file that was asked for has to be there, wherever one is looked for
/// otherwise; the one at the default place need not be.
pub proof fn law_which_configuration_file_is_read(
    explicit: Option<Vec<u8>>,
    xdg: Option<Vec<u8>>,
    home: Option<Vec<u8>>,
    r: ConfigSource,
)
    requires
        call_ensures(Config::locate, (explicit, &xdg, &home), r),
    ensures
        explicit matches Some(p) ==> (r matches ConfigSource::Required(q) && q@
            == crate::path::expanded(p@, crate::path::bytes_in(home))),
        explicit is None ==> !(r is Required),
        explicit is None ==> (r is Nowhere <==> default_config_path_of(
            crate::path::bytes_in(xdg),
            crate::path::bytes_in(home),
        ) is None),
        explicit is None ==> (r matches ConfigSource::Optional(q) ==> default_config_path_of(
            crate::path::bytes_in(xdg),
            crate::path::bytes_in(home),
        ) == Some(q@)),
{
}

} // verus!
