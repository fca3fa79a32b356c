//! The configuration.
use crate::error::{Error, ErrorView, Result};
use crate::personality::{usual_personality, Personality, PersonalityView};
use crate::text::{cat2, opt_view};
use core::time::Duration;
use vstd::prelude::*;

verus! {

/// Everything that can be configured.
pub struct Config {
    pub listener: ListenerConfig,
    pub tls: TlsConfig,
    pub limits: Limits,
    pub telemetry: TelemetryConfig,
    pub payloads: PayloadConfig,
    pub personality: Personality,
}

/// Where and for how long clients are listened to.
pub struct ListenerConfig {
    pub address: String,
    pub max_connections: usize,
    pub max_connections_per_ip: usize,
    pub login_timeout_seconds: u64,
    pub idle_timeout_seconds: u64,
    pub max_session_seconds: u64,
}

/// Whether connections are encrypted.
#[derive(Clone, Copy, Debug, PartialEq, Eq, Structural)]
pub enum TlsMode {
    Disabled,
    Optional,
    Preferred,
    Required,
}

/// How connections are encrypted.
pub struct TlsConfig {
    pub mode: TlsMode,
    pub certificate_der: Option<String>,
    pub private_key_der: Option<String>,
}

/// How much of anything there may be.
#[derive(Clone, Copy, Debug, PartialEq, Eq, Structural)]
pub struct Limits {
    pub max_packet_bytes: usize,
    pub max_message_bytes: usize,
    pub max_sql_batch_bytes: usize,
    pub max_rpc_parameter_bytes: usize,
    pub max_payload_bytes: usize,
    pub max_requests_per_session: u64,
    pub max_requests_per_minute_per_ip: u64,
    pub telemetry_queue_capacity: usize,
}

/// Where events are written.
pub struct TelemetryConfig {
    pub jsonl_path: Option<String>,
    pub stdout: bool,
    pub capture_login_passwords: bool,
}

/// Whether and where submitted material is kept.
pub struct PayloadConfig {
    pub enabled: bool,
    pub directory: String,
    pub capture_login_messages: bool,
    /// The older name of `capture_login_messages`.
    pub capture_login7: bool,
}

/// The model of a [`Config`].
pub struct ConfigView {
    pub listener: ListenerView,
    pub tls: TlsView,
    pub limits: Limits,
    pub telemetry: TelemetryView,
    pub payloads: PayloadConfigView,
    pub personality: PersonalityView,
}

/// The model of a [`ListenerConfig`].
pub struct ListenerView {
    pub address: Seq<char>,
    pub max_connections: usize,
    pub max_connections_per_ip: usize,
    pub login_timeout_seconds: u64,
    pub idle_timeout_seconds: u64,
    pub max_session_seconds: u64,
}

/// The model of a [`TlsConfig`].
pub struct TlsView {
    pub mode: TlsMode,
    pub certificate_der: Option<Seq<char>>,
    pub private_key_der: Option<Seq<char>>,
}

/// The model of a [`TelemetryConfig`].
pub struct TelemetryView {
    pub jsonl_path: Option<Seq<char>>,
    pub stdout: bool,
    pub capture_login_passwords: bool,
}

/// The model of a [`PayloadConfig`].
pub struct PayloadConfigView {
    pub enabled: bool,
    pub directory: Seq<char>,
    pub capture_login_messages: bool,
    pub capture_login7: bool,
}

impl View for ListenerConfig {
    type V = ListenerView;

    open spec fn view(&self) -> ListenerView {
        ListenerView {
            address: self.address@,
            max_connections: self.max_connections,
            max_connections_per_ip: self.max_connections_per_ip,
            login_timeout_seconds: self.login_timeout_seconds,
            idle_timeout_seconds: self.idle_timeout_seconds,
            max_session_seconds: self.max_session_seconds,
        }
    }
}

impl View for TlsConfig {
    type V = TlsView;

    open spec fn view(&self) -> TlsView {
        TlsView {
            mode: self.mode,
            certificate_der: opt_view(self.certificate_der),
            private_key_der: opt_view(self.private_key_der),
        }
    }
}

impl View for TelemetryConfig {
    type V = TelemetryView;

    open spec fn view(&self) -> TelemetryView {
        TelemetryView {
            jsonl_path: opt_view(self.jsonl_path),
            stdout: self.stdout,
            capture_login_passwords: self.capture_login_passwords,
        }
    }
}

impl View for PayloadConfig {
    type V = PayloadConfigView;

    open spec fn view(&self) -> PayloadConfigView {
        PayloadConfigView {
            enabled: self.enabled,
            directory: self.directory@,
            capture_login_messages: self.capture_login_messages,
            capture_login7: self.capture_login7,
        }
    }
}

impl View for Config {
    type V = ConfigView;

    open spec fn view(&self) -> ConfigView {
        ConfigView {
            listener: self.listener@,
            tls: self.tls@,
            limits: self.limits,
            telemetry: self.telemetry@,
            payloads: self.payloads@,
            personality: self.personality@,
        }
    }
}

// ---------------------------------------------------------------------------
// Defaults

/// The usual listener.
pub open spec fn usual_listener() -> ListenerView {
    ListenerView {
        address: "127.0.0.1:1433"@,
        max_connections: 256,
        max_connections_per_ip: 20,
        login_timeout_seconds: 15,
        idle_timeout_seconds: 300,
        max_session_seconds: 3600,
    }
}

/// The usual limits.
pub open spec fn usual_limits() -> Limits {
    Limits {
        max_packet_bytes: 32_768,
        max_message_bytes: 8_388_608,
        max_sql_batch_bytes: 1_048_576,
        max_rpc_parameter_bytes: 1_048_576,
        max_payload_bytes: 16_777_216,
        max_requests_per_session: 10_000,
        max_requests_per_minute_per_ip: 1200,
        telemetry_queue_capacity: 8192,
    }
}

/// The usual way to write events.
pub open spec fn usual_telemetry() -> TelemetryView {
    TelemetryView {
        jsonl_path: Some("events.jsonl"@),
        stdout: true,
        capture_login_passwords: false,
    }
}

/// The usual way to keep material: not at all.
pub open spec fn usual_payloads() -> PayloadConfigView {
    PayloadConfigView {
        enabled: false,
        directory: "payloads"@,
        capture_login_messages: false,
        capture_login7: false,
    }
}

/// The usual encryption: none.
pub open spec fn usual_tls() -> TlsView {
    TlsView { mode: TlsMode::Disabled, certificate_der: None, private_key_der: None }
}

/// The usual configuration.
pub open spec fn usual_config() -> ConfigView {
    ConfigView {
        listener: usual_listener(),
        tls: usual_tls(),
        limits: usual_limits(),
        telemetry: usual_telemetry(),
        payloads: usual_payloads(),
        personality: usual_personality(),
    }
}

impl Default for ListenerConfig {
    fn default() -> (config: ListenerConfig)
        ensures
            config@ == usual_listener(),
    {
        ListenerConfig {
            address: "127.0.0.1:1433".to_owned(),
            max_connections: 256,
            max_connections_per_ip: 20,
            login_timeout_seconds: 15,
            idle_timeout_seconds: 300,
            max_session_seconds: 3600,
        }
    }
}

impl Default for TlsConfig {
    fn default() -> (config: TlsConfig)
        ensures
            config@ == usual_tls(),
    {
        TlsConfig { mode: TlsMode::Disabled, certificate_der: None, private_key_der: None }
    }
}

impl Default for Limits {
    fn default() -> (limits: Limits)
        ensures
            limits == usual_limits(),
    {
        Limits {
            max_packet_bytes: 32_768,
            max_message_bytes: 8_388_608,
            max_sql_batch_bytes: 1_048_576,
            max_rpc_parameter_bytes: 1_048_576,
            max_payload_bytes: 16_777_216,
            max_requests_per_session: 10_000,
            max_requests_per_minute_per_ip: 1200,
            telemetry_queue_capacity: 8192,
        }
    }
}

impl Default for TelemetryConfig {
    fn default() -> (config: TelemetryConfig)
        ensures
            config@ == usual_telemetry(),
    {
        TelemetryConfig {
            jsonl_path: Some("events.jsonl".to_owned()),
            stdout: true,
            capture_login_passwords: false,
        }
    }
}

impl Default for PayloadConfig {
    fn default() -> (config: PayloadConfig)
        ensures
            config@ == usual_payloads(),
    {
        PayloadConfig {
            enabled: false,
            directory: "payloads".to_owned(),
            capture_login_messages: false,
            capture_login7: false,
        }
    }
}

impl Default for Config {
    fn default() -> (config: Config)
        ensures
            config@ == usual_config(),
    {
        Config {
            listener: ListenerConfig::default(),
            tls: TlsConfig::default(),
            limits: Limits::default(),
            telemetry: TelemetryConfig::default(),
            payloads: PayloadConfig::default(),
            personality: Personality::default(),
        }
    }
}

// ---------------------------------------------------------------------------
// Times

/// A span of whole seconds.
pub uninterp spec fn whole_seconds(seconds: u64) -> Duration;

/// `Duration::from_secs` of std: a function of the number of seconds.
pub assume_specification[ Duration::from_secs ](seconds: u64) -> (span: Duration)
    ensures
        span == whole_seconds(seconds),
;

impl ListenerConfig {
    /// How long a client may take to log in.
    pub fn login_timeout(&self) -> (span: Duration)
        ensures
            span == whole_seconds(self@.login_timeout_seconds),
    {
        Duration::from_secs(self.login_timeout_seconds)
    }

    /// How long a client may stay silent.
    pub fn idle_timeout(&self) -> (span: Duration)
        ensures
            span == whole_seconds(self@.idle_timeout_seconds),
    {
        Duration::from_secs(self.idle_timeout_seconds)
    }

    /// How long a session may last.
    pub fn session_timeout(&self) -> (span: Duration)
        ensures
            span == whole_seconds(self@.max_session_seconds),
    {
        Duration::from_secs(self.max_session_seconds)
    }
}

// ---------------------------------------------------------------------------
// Validity

impl PayloadConfigView {
    /// Whether messages that carry credentials are kept, under either name of the option.
    pub open spec fn keeps_logins(self) -> bool {
        self.capture_login_messages || self.capture_login7
    }
}

impl PayloadConfig {
    /// Whether messages that carry credentials are kept, under either name of the option.
    pub fn captures_login_messages(&self) -> (yes: bool)
        ensures
            yes == self@.keeps_logins(),
    {
        self.capture_login_messages || self.capture_login7
    }
}

/// Whether no limit is zero that must not be, and none contradicts another.
pub open spec fn limits_agree(listener: ListenerView, limits: Limits) -> bool {
    &&& listener.max_connections > 0
    &&& listener.max_connections_per_ip > 0
    &&& 8 <= limits.max_packet_bytes <= 0xffff
    &&& limits.max_packet_bytes <= limits.max_message_bytes
    &&& limits.max_sql_batch_bytes <= limits.max_message_bytes
    &&& limits.telemetry_queue_capacity > 0
}

/// What is wrong with a configuration. `address_error` says why the address is not the
/// address of a socket, where it is none.
pub open spec fn config_error(config: ConfigView, address_error: Option<Seq<char>>) -> Option<
    ErrorView,
> {
    if address_error is Some {
        Some(
            ErrorView::Config(
                "listener.address is not a socket address: "@ + address_error->0,
            ),
        )
    } else if !limits_agree(config.listener, config.limits) {
        Some(ErrorView::Config("invalid zero or inconsistent resource limit"@))
    } else if config.tls.mode != TlsMode::Disabled && (config.tls.certificate_der is None
        || config.tls.private_key_der is None) {
        Some(
            ErrorView::Config("TLS optional/required needs certificate_der and private_key_der"@),
        )
    } else if config.personality.databases.len() == 0 {
        Some(ErrorView::Config("personality.databases may not be empty"@))
    } else if config.telemetry.capture_login_passwords && config.telemetry.stdout {
        Some(
            ErrorView::Config(
                "telemetry.capture_login_passwords may not be enabled with telemetry.stdout"@,
            ),
        )
    } else {
        None
    }
}

impl Config {
    /// Whether the configuration can be used. `address_error` says why the address is not the
    /// address of a socket, where it is none.
    pub fn validate(&self, address_error: Option<&str>) -> (result: Result<()>)
        ensures
            match result {
                Ok(_) => config_error(self@, opt_view(address_error)) is None,
                Err(error) => config_error(self@, opt_view(address_error)) == Some(error@),
            },
    {
        if let Some(error) = address_error {
            return Err(
                Error::Config(cat2("listener.address is not a socket address: ", error)),
            );
        }
        if self.listener.max_connections == 0 || self.listener.max_connections_per_ip == 0
            || self.limits.max_packet_bytes < 8 || self.limits.max_packet_bytes > 0xffff
            || self.limits.max_message_bytes < self.limits.max_packet_bytes
            || self.limits.max_sql_batch_bytes > self.limits.max_message_bytes
            || self.limits.telemetry_queue_capacity == 0 {
            return Err(Error::Config("invalid zero or inconsistent resource limit".to_owned()));
        }
        match self.tls.mode {
            TlsMode::Disabled => {},
            TlsMode::Optional | TlsMode::Preferred | TlsMode::Required => {
                if self.tls.certificate_der.is_none() || self.tls.private_key_der.is_none() {
                    return Err(
                        Error::Config(
                            "TLS optional/required needs certificate_der and private_key_der".to_owned(),
                        ),
                    );
                }
            },
        }
        if self.personality.databases.len() == 0 {
            return Err(Error::Config("personality.databases may not be empty".to_owned()));
        }
        if self.telemetry.capture_login_passwords && self.telemetry.stdout {
            return Err(
                Error::Config(
                    "telemetry.capture_login_passwords may not be enabled with telemetry.stdout".to_owned(),
                ),
            );
        }
        Ok(())
    }
}

// ---------------------------------------------------------------------------
// Laws

/// The usual configuration can be used.
pub proof fn lemma_usual_config_is_valid()
    ensures
        config_error(usual_config(), None) is None,
{
}

/// Passwords that are captured never reach standard output: no valid configuration has both.
pub proof fn lemma_passwords_stay_off_stdout(config: ConfigView)
    requires
        config_error(config, None) is None,
    ensures
        !(config.telemetry.capture_login_passwords && config.telemetry.stdout),
{
}

} // verus!
