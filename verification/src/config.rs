//! Server settings: their defaults, how overrides given as text change them,
//! and the listening address they name.
use vstd::prelude::*;

use crate::text::{
    decimal, law_decimal_parse_round_trip, parse_unsigned, parse_unsigned_spec, push_decimal, same_text,
};

verus! {

/// The settings of the server.
#[derive(Debug, Clone)]
pub struct AppConfig {
    pub bind_host: String,
    pub port: u16,
    pub ws_path: String,
    /// How long a command waits for the extension's reply, in milliseconds.
    pub request_timeout_ms: u64,
    pub max_incoming_ws_bytes: usize,
    pub recent_events_limit: usize,
}

pub const DEFAULT_PORT: u16 = 17373;

pub const DEFAULT_REQUEST_TIMEOUT_MS: u64 = 8000;

pub const DEFAULT_MAX_INCOMING_WS_BYTES: usize = 20_000_000;

pub const DEFAULT_RECENT_EVENTS_LIMIT: usize = 500;

/// Settings as text, each present when it was given (the server reads them
/// from the environment variables `BROWSR_HOST`, `BROWSR_PORT`,
/// `BROWSR_WS_PATH`, `BROWSR_REQUEST_TIMEOUT_MS`, `BROWSR_MAX_WS_BYTES` and
/// `BROWSR_EVENTS_LIMIT`).
#[derive(Debug, Clone, Default)]
pub struct ConfigOverrides {
    pub host: Option<String>,
    pub port: Option<String>,
    pub ws_path: Option<String>,
    pub request_timeout_ms: Option<String>,
    pub max_ws_bytes: Option<String>,
    pub events_limit: Option<String>,
}

/// A text setting: the given text, or the default.
pub open spec fn overridden_text(given: Option<String>, default: Seq<char>) -> Seq<char> {
    match given {
        Some(t) => t@,
        None => default,
    }
}

/// A numeric setting: the given text read as a number no larger than `max`,
/// or the default when nothing was given or the text does not read as one.
pub open spec fn overridden_number(given: Option<String>, max: int, default: int) -> int {
    match given {
        Some(t) => match parse_unsigned_spec(t@, max) {
            Some(n) => n,
            None => default,
        },
        None => default,
    }
}

impl AppConfig {
    /// The default settings.
    pub open spec fn is_default(self) -> bool {
        &&& self.bind_host@ == "127.0.0.1"@
        &&& self.port == DEFAULT_PORT
        &&& self.ws_path@ == "/ws"@
        &&& self.request_timeout_ms == DEFAULT_REQUEST_TIMEOUT_MS
        &&& self.max_incoming_ws_bytes == DEFAULT_MAX_INCOMING_WS_BYTES
        &&& self.recent_events_limit == DEFAULT_RECENT_EVENTS_LIMIT
    }

    /// The settings that `overrides` give over the defaults.
    pub open spec fn follows(self, overrides: ConfigOverrides) -> bool {
        &&& self.bind_host@ == overridden_text(overrides.host, "127.0.0.1"@)
        &&& self.port as int == overridden_number(overrides.port, u16::MAX as int, DEFAULT_PORT as int)
        &&& self.ws_path@ == overridden_text(overrides.ws_path, "/ws"@)
        &&& self.request_timeout_ms as int == overridden_number(
            overrides.request_timeout_ms,
            u64::MAX as int,
            DEFAULT_REQUEST_TIMEOUT_MS as int,
        )
        &&& self.max_incoming_ws_bytes as int == overridden_number(
            overrides.max_ws_bytes,
            usize::MAX as int,
            DEFAULT_MAX_INCOMING_WS_BYTES as int,
        )
        &&& self.recent_events_limit as int == overridden_number(
            overrides.events_limit,
            usize::MAX as int,
            DEFAULT_RECENT_EVENTS_LIMIT as int,
        )
    }

    /// The defaults with each given setting put in place; a number that does
    /// not read as one of its type leaves the default.
    pub fn from_overrides(overrides: ConfigOverrides) -> (c: AppConfig)
        ensures
            c.follows(overrides),
    {
        let mut config = AppConfig::default();
        let ConfigOverrides { host, port, ws_path, request_timeout_ms, max_ws_bytes, events_limit } =
            overrides;
        if let Some(value) = host {
            config.bind_host = value;
        }
        if let Some(value) = &port {
            if let Some(parsed) = parse_unsigned(value.as_str(), u16::MAX as u64) {
                config.port = parsed as u16;
            }
        }
        if let Some(value) = ws_path {
            config.ws_path = value;
        }
        if let Some(value) = &request_timeout_ms {
            if let Some(parsed) = parse_unsigned(value.as_str(), u64::MAX) {
                config.request_timeout_ms = parsed;
            }
        }
        if let Some(value) = &max_ws_bytes {
            if let Some(parsed) = parse_unsigned(value.as_str(), usize::MAX as u64) {
                config.max_incoming_ws_bytes = parsed as usize;
            }
        }
        if let Some(value) = &events_limit {
            if let Some(parsed) = parse_unsigned(value.as_str(), usize::MAX as u64) {
                config.recent_events_limit = parsed as usize;
            }
        }
        config
    }

    /// The address to listen on, `host:port`.
    pub fn bind_address(&self) -> (r: String)
        ensures
            r@ == self.bind_host@ + seq![':'] + decimal(self.port as nat),
    {
        let mut r = self.bind_host.clone();
        proof {
            reveal_strlit(":");
        }
        r.append(":");
        push_decimal(&mut r, self.port as u64);
        r
    }

    /// Whether a text message of `len` bytes from the extension is small
    /// enough to be processed.
    pub fn admits_ws_text(&self, len: usize) -> (r: bool)
        ensures
            r == (len <= self.max_incoming_ws_bytes),
    {
        len <= self.max_incoming_ws_bytes
    }
}

impl Default for AppConfig {
    fn default() -> (c: AppConfig)
        ensures
            c.is_default(),
    {
        AppConfig {
            bind_host: "127.0.0.1".to_owned(),
            port: DEFAULT_PORT,
            ws_path: "/ws".to_owned(),
            request_timeout_ms: DEFAULT_REQUEST_TIMEOUT_MS,
            max_incoming_ws_bytes: DEFAULT_MAX_INCOMING_WS_BYTES,
            recent_events_limit: DEFAULT_RECENT_EVENTS_LIMIT,
        }
    }
}

/// Whether the program's arguments (its own name first) ask for logging to a
/// file: `--log` among the arguments after the first.
pub fn wants_log_file(args: &Vec<String>) -> (r: bool)
    ensures
        r == exists|i: int| 1 <= i < args@.len() && #[trigger] args@[i]@ == "--log"@,
{
    let mut i: usize = 1;
    while i < args.len()
        invariant
            1 <= i,
            forall|j: int| 1 <= j < i && j < args@.len() ==> #[trigger] args@[j]@ != "--log"@,
        decreases args@.len() - i,
    {
        if same_text(args[i].as_str(), "--log") {
            return true;
        }
        i = i + 1;
    }
    false
}

/// With no setting given, the settings are the defaults.
pub proof fn law_no_overrides_means_defaults(c: AppConfig, overrides: ConfigOverrides)
    requires
        overrides.host is None,
        overrides.port is None,
        overrides.ws_path is None,
        overrides.request_timeout_ms is None,
        overrides.max_ws_bytes is None,
        overrides.events_limit is None,
        c.follows(overrides),
    ensures
        c.is_default(),
{
}

/// A numeric setting given as the decimal text of a value of its type is
/// taken as that value: a port up to 65535, a timeout up to `u64::MAX`, and
/// a byte limit or an events limit up to `usize::MAX`.
pub proof fn law_numeric_overrides_read_back(
    c: AppConfig,
    overrides: ConfigOverrides,
    port: u16,
    timeout_ms: u64,
    max_ws_bytes: usize,
    events_limit: usize,
)
    requires
        c.follows(overrides),
    ensures
        overrides.port matches Some(t) && t@ == decimal(port as nat) ==> c.port == port,
        overrides.request_timeout_ms matches Some(t) && t@ == decimal(timeout_ms as nat)
            ==> c.request_timeout_ms == timeout_ms,
        overrides.max_ws_bytes matches Some(t) && t@ == decimal(max_ws_bytes as nat)
            ==> c.max_incoming_ws_bytes == max_ws_bytes,
        overrides.events_limit matches Some(t) && t@ == decimal(events_limit as nat)
            ==> c.recent_events_limit == events_limit,
{
    law_decimal_parse_round_trip(port as nat, u16::MAX as int);
    law_decimal_parse_round_trip(timeout_ms as nat, u64::MAX as int);
    law_decimal_parse_round_trip(max_ws_bytes as nat, usize::MAX as int);
    law_decimal_parse_round_trip(events_limit as nat, usize::MAX as int);
}

} // verus!
