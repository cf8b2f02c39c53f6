//! The configuration of the bridge, its defaults and its checks.
//!
//! Reading the configuration file is not done here: a configuration comes
//! in as a value. Secrets never show in the descriptions that this module
//! writes for logs.

use crate::text::{decimal, push_decimal};
use std::time::Duration;
use vstd::prelude::*;
use vstd::string::*;

verus! {

/// What stands in a description where a secret would.
pub const REDACTED: &'static str = "\"***REDACTED***\"";

/// The whole seconds of a duration: what `Duration::as_secs` gives.
pub uninterp spec fn whole_seconds(d: Duration) -> u64;

/// The nanoseconds of a duration beyond its whole seconds: what
/// `Duration::subsec_nanos` gives.
pub uninterp spec fn fraction_nanos(d: Duration) -> u32;

/// A text in the quotes and with the escapes of `str`'s `Debug`.
pub uninterp spec fn quoted_text(text: Seq<char>) -> Seq<char>;

/// A duration of so many seconds and nanoseconds, as `Duration`'s `Debug` writes it.
pub uninterp spec fn duration_text(secs: u64, nanos: u32) -> Seq<char>;

/// `Duration::from_secs`: a duration of so many whole seconds and nothing more.
pub assume_specification[ Duration::from_secs ](secs: u64) -> (d: Duration)
    ensures
        whole_seconds(d) == secs,
        fraction_nanos(d) == 0,
;

/// `Duration`'s `Clone`: a duration is copied as it is.
pub assume_specification[ <Duration as Clone>::clone ](d: &Duration) -> (copy: Duration)
    ensures
        copy == *d,
;

/// `str`'s `Debug`: the text in double quotes, with escapes. The result is
/// named, not described.
#[verifier::external_body]
fn quote(text: &str) -> (r: String)
    ensures
        r@ == quoted_text(text@),
{
    format!("{:?}", text)
}

/// `Duration`'s `Debug`, such as `5s` or `1.5s`. The result is named by
/// the seconds and nanoseconds that the duration holds, not described.
#[verifier::external_body]
fn write_duration(d: &Duration) -> (r: String)
    ensures
        r@ == duration_text(whole_seconds(*d), fraction_nanos(*d)),
{
    format!("{:?}", d)
}

/// How much the bridge logs.
#[derive(Debug, Clone, Copy, PartialEq, Eq, Structural)]
pub enum LogLevel {
    Trace,
    Debug,
    Info,
    Warn,
    Error,
}

impl LogLevel {
    /// The level as a log filter names it.
    pub open spec fn filter_name(&self) -> Seq<char> {
        match self {
            LogLevel::Trace => "trace"@,
            LogLevel::Debug => "debug"@,
            LogLevel::Info => "info"@,
            LogLevel::Warn => "warn"@,
            LogLevel::Error => "error"@,
        }
    }

    /// The level as the configuration file names it.
    pub open spec fn label(&self) -> Seq<char> {
        match self {
            LogLevel::Trace => "TRACE"@,
            LogLevel::Debug => "DEBUG"@,
            LogLevel::Info => "INFO"@,
            LogLevel::Warn => "WARN"@,
            LogLevel::Error => "ERROR"@,
        }
    }

    /// The level as a log filter names it.
    pub fn as_str(&self) -> (name: &'static str)
        ensures
            name@ == self.filter_name(),
    {
        match self {
            LogLevel::Trace => "trace",
            LogLevel::Debug => "debug",
            LogLevel::Info => "info",
            LogLevel::Warn => "warn",
            LogLevel::Error => "error",
        }
    }

    /// The level as the configuration file names it.
    pub fn to_string(&self) -> (name: String)
        ensures
            name@ == self.label(),
    {
        match self {
            LogLevel::Trace => String::from_str("TRACE"),
            LogLevel::Debug => String::from_str("DEBUG"),
            LogLevel::Info => String::from_str("INFO"),
            LogLevel::Warn => String::from_str("WARN"),
            LogLevel::Error => String::from_str("ERROR"),
        }
    }
}

impl Default for LogLevel {
    fn default() -> (level: LogLevel)
        ensures
            level == LogLevel::Info,
    {
        LogLevel::Info
    }
}

/// General settings.
#[derive(Debug, Clone, Copy, PartialEq, Eq, Structural)]
pub struct DefaultConfig {
    pub log_level: LogLevel,
}

impl Default for DefaultConfig {
    fn default() -> (config: DefaultConfig)
        ensures
            config.log_level == LogLevel::Info,
    {
        DefaultConfig { log_level: LogLevel::Info }
    }
}

/// How to reach the storage system, and how often to ask it.
#[derive(Clone)]
pub struct E3dcConfig {
    pub host: String,
    pub username: String,
    pub password: String,
    pub key: String,
    pub interval: Duration,
    pub statistic_update_interval: Duration,
}

/// How to reach the broker, and the root of the bridge's topics.
#[derive(Clone)]
pub struct MqttConfig {
    pub root: String,
    pub host: Option<String>,
    pub port: u16,
    pub socket: Option<String>,
    pub username: String,
    pub password: String,
}

/// The whole configuration.
#[derive(Clone)]
pub struct Config {
    pub default: DefaultConfig,
    pub e3dc: E3dcConfig,
    pub mqtt: MqttConfig,
}

/// What is wrong with a configuration, or with getting one.
#[derive(Debug, PartialEq)]
pub enum ConfigError {
    FileNotFound(String),
    ReadError(String),
    ParseError(String),
    ValidationError(String),
}

/// The interval between two status updates where none is configured: five seconds.
pub fn default_interval() -> (d: Duration)
    ensures
        whole_seconds(d) == 5,
        fraction_nanos(d) == 0,
{
    Duration::from_secs(5)
}

/// The interval between two statistics updates where none is configured:
/// five minutes.
pub fn default_statistic_interval() -> (d: Duration)
    ensures
        whole_seconds(d) == 300,
        fraction_nanos(d) == 0,
{
    Duration::from_secs(300)
}

/// The root topic where none is configured.
pub fn default_mqtt_root() -> (root: String)
    ensures
        root@ == "e3dc"@,
{
    String::from_str("e3dc")
}

/// The broker's port where none is configured.
pub fn default_mqtt_port() -> (port: u16)
    ensures
        port == 1883,
{
    1883
}

/// An optional text as `Debug` writes it.
pub open spec fn optional_text(text: Option<String>) -> Seq<char> {
    match text {
        Some(t) => "Some("@ + quoted_text(t@) + ")"@,
        None => "None"@,
    }
}

fn push_optional(out: &mut String, text: &Option<String>)
    ensures
        final(out)@ == old(out)@ + optional_text(*text),
{
    match text {
        Some(t) => {
            out.append("Some(");
            out.append(quote(t.as_str()).as_str());
            out.append(")");
            assert(out@ =~= old(out)@ + optional_text(*text));
        },
        None => {
            out.append("None");
        },
    }
}

impl ConfigError {
    /// The text of the error.
    pub open spec fn text(&self) -> Seq<char> {
        match self {
            ConfigError::FileNotFound(path) => "Configuration file not found: "@ + path@,
            ConfigError::ReadError(reason) => "Failed to read configuration file: "@ + reason@,
            ConfigError::ParseError(reason) => "Failed to parse configuration: "@ + reason@,
            ConfigError::ValidationError(reason) => "Configuration validation failed: "@ + reason@,
        }
    }

    /// The text this error is reported as.
    pub fn to_string(&self) -> (s: String)
        ensures
            s@ == self.text(),
    {
        match self {
            ConfigError::FileNotFound(path) => crate::text::concat2(
                "Configuration file not found: ",
                path.as_str(),
            ),
            ConfigError::ReadError(reason) => crate::text::concat2(
                "Failed to read configuration file: ",
                reason.as_str(),
            ),
            ConfigError::ParseError(reason) => crate::text::concat2(
                "Failed to parse configuration: ",
                reason.as_str(),
            ),
            ConfigError::ValidationError(reason) => crate::text::concat2(
                "Configuration validation failed: ",
                reason.as_str(),
            ),
        }
    }
}

impl E3dcConfig {
    /// The description of the settings for logs: the password and the
    /// key are not in it.
    pub open spec fn description(&self) -> Seq<char> {
        "E3dcConfig { host: "@ + quoted_text(self.host@) + ", username: "@ + quoted_text(
            self.username@,
        ) + ", password: "@ + REDACTED@ + ", key: "@ + REDACTED@ + ", interval: "@ + duration_text(
            whole_seconds(self.interval),
            fraction_nanos(self.interval),
        ) + ", statistic_update_interval: "@ + duration_text(
            whole_seconds(self.statistic_update_interval),
            fraction_nanos(self.statistic_update_interval),
        ) + " }"@
    }

    /// Describes the settings for logs, without their secrets.
    pub fn debug_string(&self) -> (s: String)
        ensures
            s@ == self.description(),
    {
        let mut s = String::from_str("E3dcConfig { host: ");
        s.append(quote(self.host.as_str()).as_str());
        s.append(", username: ");
        s.append(quote(self.username.as_str()).as_str());
        s.append(", password: ");
        s.append(REDACTED);
        s.append(", key: ");
        s.append(REDACTED);
        s.append(", interval: ");
        s.append(write_duration(&self.interval).as_str());
        s.append(", statistic_update_interval: ");
        s.append(write_duration(&self.statistic_update_interval).as_str());
        s.append(" }");
        s
    }
}

impl MqttConfig {
    /// The description of the settings for logs: the password is not in it.
    pub open spec fn description(&self) -> Seq<char> {
        "MqttConfig { host: "@ + optional_text(self.host) + ", port: "@ + decimal(self.port as nat)
            + ", socket: "@ + optional_text(self.socket) + ", username: "@ + quoted_text(
            self.username@,
        ) + ", password: "@ + REDACTED@ + ", root: "@ + quoted_text(self.root@) + " }"@
    }

    /// A broker can be reached: there is a socket, or a host with a name.
    pub open spec fn reachable(&self) -> bool {
        self.socket is Some || (self.host matches Some(h) && h@.len() > 0)
    }

    /// Describes the settings for logs, without their secret.
    pub fn debug_string(&self) -> (s: String)
        ensures
            s@ == self.description(),
    {
        let mut s = String::from_str("MqttConfig { host: ");
        push_optional(&mut s, &self.host);
        s.append(", port: ");
        push_decimal(&mut s, self.port as u64);
        s.append(", socket: ");
        push_optional(&mut s, &self.socket);
        s.append(", username: ");
        s.append(quote(self.username.as_str()).as_str());
        s.append(", password: ");
        s.append(REDACTED);
        s.append(", root: ");
        s.append(quote(self.root.as_str()).as_str());
        s.append(" }");
        s
    }
}

impl Config {
    /// Checks what the types of the settings do not say: that the broker
    /// can be reached, by a socket or by a host with a name.
    pub fn validate(&self) -> (r: Result<(), ConfigError>)
        ensures
            self.mqtt.reachable() ==> r is Ok,
            !self.mqtt.reachable() ==> (r matches Err(ConfigError::ValidationError(reason))
                && reason@ == "mqtt.host must not be empty"@),
    {
        let named = match &self.mqtt.host {
            Some(h) => h.as_str().unicode_len() > 0,
            None => false,
        };
        if self.mqtt.socket.is_some() || named {
            Ok(())
        } else {
            Err(ConfigError::ValidationError(String::from_str("mqtt.host must not be empty")))
        }
    }
}

} // verus!
