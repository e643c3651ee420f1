//! Why settings are refused.

use crate::text::{push_decimal, push_text};
use vstd::prelude::*;

verus! {

/// Why settings are refused.
pub enum SettingsError {
    /// Both a file and a directory on the command line.
    CliSinksConflict,
    /// Both a file and a directory in the configuration file.
    ConfigSinksConflict,
    /// Two routes of one name.
    DuplicateRoute { route: String },
    /// A header that is not written as key and value.
    HeaderFormat { entry: String },
    /// A header without a key.
    HeaderKeyMissing { entry: String },
    /// A transport or header for a route without an endpoint.
    EndpointMissing { route: String },
    /// A route with an empty endpoint.
    EmptyEndpoint { route: String },
    /// A route without service names.
    NoServiceNames { route: String },
    /// A route with an empty service name.
    EmptyServiceName { route: String },
    /// A header value that refers to a variable that is not set.
    EnvNotSet { route: String, variable: String, key: String },
    /// A header with an empty key.
    EmptyHeaderKey { route: String },
    /// A header key with a character that no token may hold.
    HeaderKeyCharacter { route: String, key: String, character: char },
    /// A header that must not be set.
    ReservedHeader { route: String, key: String },
    /// A header value with a line break.
    HeaderLineBreak { route: String, key: String, position: usize },
    /// A header value with a control character.
    HeaderControl { route: String, key: String, position: usize },
    /// A service that two routes claim.
    ServiceClaimedTwice { service: String, first: String, second: String },
    /// Forwarding without a place to keep what is forwarded.
    NoOutbox,
}

/// Why settings are refused.
#[verifier::ext_equal]
pub enum Refusal {
    CliSinksConflict,
    ConfigSinksConflict,
    DuplicateRoute { route: Seq<char> },
    HeaderFormat { entry: Seq<char> },
    HeaderKeyMissing { entry: Seq<char> },
    EndpointMissing { route: Seq<char> },
    EmptyEndpoint { route: Seq<char> },
    NoServiceNames { route: Seq<char> },
    EmptyServiceName { route: Seq<char> },
    EnvNotSet { route: Seq<char>, variable: Seq<char>, key: Seq<char> },
    EmptyHeaderKey { route: Seq<char> },
    HeaderKeyCharacter { route: Seq<char>, key: Seq<char>, character: char },
    ReservedHeader { route: Seq<char>, key: Seq<char> },
    HeaderLineBreak { route: Seq<char>, key: Seq<char>, position: int },
    HeaderControl { route: Seq<char>, key: Seq<char>, position: int },
    ServiceClaimedTwice { service: Seq<char>, first: Seq<char>, second: Seq<char> },
    NoOutbox,
}

impl View for SettingsError {
    type V = Refusal;

    open spec fn view(&self) -> Refusal {
        match self {
            SettingsError::CliSinksConflict => Refusal::CliSinksConflict,
            SettingsError::ConfigSinksConflict => Refusal::ConfigSinksConflict,
            SettingsError::DuplicateRoute { route } => Refusal::DuplicateRoute { route: route@ },
            SettingsError::HeaderFormat { entry } => Refusal::HeaderFormat { entry: entry@ },
            SettingsError::HeaderKeyMissing { entry } => Refusal::HeaderKeyMissing {
                entry: entry@,
            },
            SettingsError::EndpointMissing { route } => Refusal::EndpointMissing {
                route: route@,
            },
            SettingsError::EmptyEndpoint { route } => Refusal::EmptyEndpoint { route: route@ },
            SettingsError::NoServiceNames { route } => Refusal::NoServiceNames { route: route@ },
            SettingsError::EmptyServiceName { route } => Refusal::EmptyServiceName {
                route: route@,
            },
            SettingsError::EnvNotSet { route, variable, key } => Refusal::EnvNotSet {
                route: route@,
                variable: variable@,
                key: key@,
            },
            SettingsError::EmptyHeaderKey { route } => Refusal::EmptyHeaderKey { route: route@ },
            SettingsError::HeaderKeyCharacter { route, key, character } =>
                Refusal::HeaderKeyCharacter {
                route: route@,
                key: key@,
                character: *character,
            },
            SettingsError::ReservedHeader { route, key } => Refusal::ReservedHeader {
                route: route@,
                key: key@,
            },
            SettingsError::HeaderLineBreak { route, key, position } => Refusal::HeaderLineBreak {
                route: route@,
                key: key@,
                position: *position as int,
            },
            SettingsError::HeaderControl { route, key, position } => Refusal::HeaderControl {
                route: route@,
                key: key@,
                position: *position as int,
            },
            SettingsError::ServiceClaimedTwice { service, first, second } =>
                Refusal::ServiceClaimedTwice {
                service: service@,
                first: first@,
                second: second@,
            },
            SettingsError::NoOutbox => Refusal::NoOutbox,
        }
    }
}

/// What a refusal is reported as.
pub open spec fn message_of(e: Refusal) -> Seq<char> {
    match e {
        Refusal::CliSinksConflict => "`--log-file` and `--log-dir` are mutually exclusive"@,
        Refusal::ConfigSinksConflict => "`log-file` and `log-dir` are mutually exclusive"@,
        Refusal::DuplicateRoute { route } => "duplicate proxy route name `"@ + route
            + "` in configuration"@,
        Refusal::HeaderFormat { entry } => "proxy header `"@ + entry
            + "` must use KEY=VALUE format"@,
        Refusal::HeaderKeyMissing { entry } => "proxy header `"@ + entry + "` has empty key"@,
        Refusal::EndpointMissing { route } => "--proxy-"@ + route + "-transport/--proxy-"@ + route
            + "-header require --proxy-"@ + route + "-endpoint"@,
        Refusal::EmptyEndpoint { route } => "proxy route `"@ + route + "` has empty endpoint"@,
        Refusal::NoServiceNames { route } => "custom proxy route `"@ + route
            + "` must specify at least one `service_names` entry"@,
        Refusal::EmptyServiceName { route } => "proxy route `"@ + route
            + "` has an empty `service_names` entry"@,
        Refusal::EnvNotSet { route, variable, key } => "proxy route `"@ + route + "`: env var `"@
            + variable + "` (referenced by header `"@ + key + "`) is not set"@,
        Refusal::EmptyHeaderKey { route } => "proxy route `"@ + route
            + "` has an empty header key"@,
        Refusal::HeaderKeyCharacter { route, key, character } => "proxy route `"@ + route
            + "` header key `"@ + key + "` contains invalid character `"@ + seq![character] + "`"@,
        Refusal::ReservedHeader { route, key } => "proxy route `"@ + route + "`: header `"@ + key
            + "` is reserved and cannot be overridden"@,
        Refusal::HeaderLineBreak { route, key, position } => "proxy route `"@ + route
            + "`: header `"@ + key + "` contains a CR/LF at position "@ + crate::text::decimal(
            position as nat,
        ),
        Refusal::HeaderControl { route, key, position } => "proxy route `"@ + route
            + "`: header `"@ + key + "` contains a control character at position "@
            + crate::text::decimal(position as nat),
        Refusal::ServiceClaimedTwice { service, first, second } => "proxy service_names `"@
            + service + "` is claimed by both routes `"@ + first + "` and `"@ + second + "`"@,
        Refusal::NoOutbox =>
            "proxy forwarding requires a JSONL outbox (set --log-file or --log-dir); Phase A persists every accepted batch before forwarding, but does not replay it"@,
    }
}

impl SettingsError {
    /// What the refusal is reported as.
    pub fn message(&self) -> (r: String)
        ensures
            r@ == message_of(self@),
    {
        let mut m = String::new();
        match self {
            SettingsError::CliSinksConflict => {
                push_text(&mut m, "`--log-file` and `--log-dir` are mutually exclusive");
            },
            SettingsError::ConfigSinksConflict => {
                push_text(&mut m, "`log-file` and `log-dir` are mutually exclusive");
            },
            SettingsError::DuplicateRoute { route } => {
                push_text(&mut m, "duplicate proxy route name `");
                push_text(&mut m, route.as_str());
                push_text(&mut m, "` in configuration");
            },
            SettingsError::HeaderFormat { entry } => {
                push_text(&mut m, "proxy header `");
                push_text(&mut m, entry.as_str());
                push_text(&mut m, "` must use KEY=VALUE format");
            },
            SettingsError::HeaderKeyMissing { entry } => {
                push_text(&mut m, "proxy header `");
                push_text(&mut m, entry.as_str());
                push_text(&mut m, "` has empty key");
            },
            SettingsError::EndpointMissing { route } => {
                push_text(&mut m, "--proxy-");
                push_text(&mut m, route.as_str());
                push_text(&mut m, "-transport/--proxy-");
                push_text(&mut m, route.as_str());
                push_text(&mut m, "-header require --proxy-");
                push_text(&mut m, route.as_str());
                push_text(&mut m, "-endpoint");
            },
            SettingsError::EmptyEndpoint { route } => {
                push_text(&mut m, "proxy route `");
                push_text(&mut m, route.as_str());
                push_text(&mut m, "` has empty endpoint");
            },
            SettingsError::NoServiceNames { route } => {
                push_text(&mut m, "custom proxy route `");
                push_text(&mut m, route.as_str());
                push_text(&mut m, "` must specify at least one `service_names` entry");
            },
            SettingsError::EmptyServiceName { route } => {
                push_text(&mut m, "proxy route `");
                push_text(&mut m, route.as_str());
                push_text(&mut m, "` has an empty `service_names` entry");
            },
            SettingsError::EnvNotSet { route, variable, key } => {
                push_text(&mut m, "proxy route `");
                push_text(&mut m, route.as_str());
                push_text(&mut m, "`: env var `");
                push_text(&mut m, variable.as_str());
                push_text(&mut m, "` (referenced by header `");
                push_text(&mut m, key.as_str());
                push_text(&mut m, "`) is not set");
            },
            SettingsError::EmptyHeaderKey { route } => {
                push_text(&mut m, "proxy route `");
                push_text(&mut m, route.as_str());
                push_text(&mut m, "` has an empty header key");
            },
            SettingsError::HeaderKeyCharacter { route, key, character } => {
                push_text(&mut m, "proxy route `");
                push_text(&mut m, route.as_str());
                push_text(&mut m, "` header key `");
                push_text(&mut m, key.as_str());
                push_text(&mut m, "` contains invalid character `");
                m.push(*character);
                push_text(&mut m, "`");
            },
            SettingsError::ReservedHeader { route, key } => {
                push_text(&mut m, "proxy route `");
                push_text(&mut m, route.as_str());
                push_text(&mut m, "`: header `");
                push_text(&mut m, key.as_str());
                push_text(&mut m, "` is reserved and cannot be overridden");
            },
            SettingsError::HeaderLineBreak { route, key, position } => {
                push_text(&mut m, "proxy route `");
                push_text(&mut m, route.as_str());
                push_text(&mut m, "`: header `");
                push_text(&mut m, key.as_str());
                push_text(&mut m, "` contains a CR/LF at position ");
                push_decimal(&mut m, *position as u128);
            },
            SettingsError::HeaderControl { route, key, position } => {
                push_text(&mut m, "proxy route `");
                push_text(&mut m, route.as_str());
                push_text(&mut m, "`: header `");
                push_text(&mut m, key.as_str());
                push_text(&mut m, "` contains a control character at position ");
                push_decimal(&mut m, *position as u128);
            },
            SettingsError::ServiceClaimedTwice { service, first, second } => {
                push_text(&mut m, "proxy service_names `");
                push_text(&mut m, service.as_str());
                push_text(&mut m, "` is claimed by both routes `");
                push_text(&mut m, first.as_str());
                push_text(&mut m, "` and `");
                push_text(&mut m, second.as_str());
                push_text(&mut m, "`");
            },
            SettingsError::NoOutbox => {
                push_text(
                    &mut m,
                    "proxy forwarding requires a JSONL outbox (set --log-file or --log-dir); Phase A persists every accepted batch before forwarding, but does not replay it",
                );
            },
        }
        assert(m@ =~= message_of(self@));
        m
    }
}

/// What each refusal is reported as.
pub proof fn law_refusals_say_why(e: Refusal)
    ensures
        e matches Refusal::CliSinksConflict
            ==> message_of(e) == "`--log-file` and `--log-dir` are mutually exclusive"@,
        e matches Refusal::ConfigSinksConflict
            ==> message_of(e) == "`log-file` and `log-dir` are mutually exclusive"@,
        e matches Refusal::DuplicateRoute { route }
            ==> message_of(e) == "duplicate proxy route name `"@
            + route + "` in configuration"@,
        e matches Refusal::HeaderFormat { entry } ==> message_of(e) == "proxy header `"@ + entry
            + "` must use KEY=VALUE format"@,
        e matches Refusal::HeaderKeyMissing { entry } ==> message_of(e) == "proxy header `"@
            + entry + "` has empty key"@,
        e matches Refusal::EndpointMissing { route } ==> message_of(e) == "--proxy-"@ + route
            + "-transport/--proxy-"@ + route + "-header require --proxy-"@ + route + "-endpoint"@,
        e matches Refusal::EmptyEndpoint { route } ==> message_of(e) == "proxy route `"@ + route
            + "` has empty endpoint"@,
        e matches Refusal::NoServiceNames { route } ==> message_of(e) == "custom proxy route `"@
            + route + "` must specify at least one `service_names` entry"@,
        e matches Refusal::EmptyServiceName { route } ==> message_of(e) == "proxy route `"@
            + route + "` has an empty `service_names` entry"@,
        e matches Refusal::EnvNotSet { route, variable, key } ==> message_of(e) == "proxy route `"@
            + route + "`: env var `"@ + variable + "` (referenced by header `"@ + key
            + "`) is not set"@,
        e matches Refusal::EmptyHeaderKey { route } ==> message_of(e) == "proxy route `"@ + route
            + "` has an empty header key"@,
        e matches Refusal::HeaderKeyCharacter { route, key, character }
            ==> message_of(e) == "proxy route `"@
            + route + "` header key `"@ + key + "` contains invalid character `"@
            + seq![character] + "`"@,
        e matches Refusal::ReservedHeader { route, key } ==> message_of(e) == "proxy route `"@
            + route + "`: header `"@ + key + "` is reserved and cannot be overridden"@,
        e matches Refusal::HeaderLineBreak { route, key, position }
            ==> message_of(e) == "proxy route `"@
            + route + "`: header `"@ + key + "` contains a CR/LF at position "@
            + crate::text::decimal( position as nat, ),
        e matches Refusal::HeaderControl { route, key, position }
            ==> message_of(e) == "proxy route `"@
            + route + "`: header `"@ + key + "` contains a control character at position "@
            + crate::text::decimal(position as nat),
        e matches Refusal::ServiceClaimedTwice { service, first, second }
            ==> message_of(e) == "proxy service_names `"@
            + service + "` is claimed by both routes `"@ + first + "` and `"@ + second + "`"@,
        e matches Refusal::NoOutbox
            ==> message_of(e) == "proxy forwarding requires a JSONL outbox (set --log-file or --log-dir); Phase A persists every accepted batch before forwarding, but does not replay it"@,
{
}

} // verus!
