//! Server configuration: its sections, their default values, environment
//! and command-line overrides, and validation.
use vstd::prelude::*;

pub mod cli;
pub mod env;
pub mod error;
pub mod validation;

pub use cli::CliArgs;
pub use env::EnvOverrides;
pub use error::{ConfigError, ConfigErrorView};

verus! {

/// Server-level configuration.
#[derive(Clone, Debug)]
pub struct ServerConfig {
    pub address: String,
    pub worker_threads: usize,
    pub read_buffer_size: usize,
    pub event_capacity: usize,
    pub pid_file: Option<String>,
}

/// QUIC protocol configuration.
#[derive(Clone, Debug)]
pub struct QuicConfig {
    /// Maximum idle timeout in milliseconds.
    pub max_idle_timeout: u64,
    /// Initial maximum data (flow control).
    pub initial_max_data: u64,
    /// Initial maximum stream data for bidirectional streams (local).
    pub initial_max_stream_data_bidi_local: u64,
    /// Initial maximum stream data for bidirectional streams (remote).
    pub initial_max_stream_data_bidi_remote: u64,
    /// Initial maximum stream data for unidirectional streams.
    pub initial_max_stream_data_uni: u64,
    /// Maximum UDP payload size.
    pub max_udp_payload_size: usize,
    /// Congestion control algorithm (cubic, bbr, reno).
    pub congestion_control: String,
    /// Enable 0-RTT early data.
    pub enable_early_data: bool,
    /// Maximum bidirectional streams.
    pub max_streams_bidi: u64,
    /// Maximum unidirectional streams.
    pub max_streams_uni: u64,
}

/// TLS configuration.
#[derive(Clone, Debug)]
pub struct TlsConfig {
    pub cert_file: String,
    pub key_file: String,
    /// ALPN protocols.
    pub alpn: Vec<String>,
    /// Minimum TLS version (always 1.3 for QUIC).
    pub min_version: String,
}

/// Logging configuration.
#[derive(Clone, Debug)]
pub struct LogConfig {
    /// Log level (trace, debug, info, warn, error).
    pub level: String,
    /// Log format (combined, common, json).
    pub format: String,
    /// Access log file path.
    pub access_log: Option<String>,
    /// Error log file path.
    pub error_log: Option<String>,
}

/// Root configuration.
#[derive(Clone, Debug)]
pub struct Config {
    pub server: ServerConfig,
    pub quic: QuicConfig,
    pub tls: TlsConfig,
    pub logging: LogConfig,
}

/// The number of CPUs that this process may run on, as `num_cpus::get`
/// reports it. Its documentation promises at least 1; the count itself
/// depends on the machine, so nothing more is stated.
#[verifier::external_body]
fn available_cpus() -> (n: usize)
    ensures
        n >= 1,
{
    num_cpus::get()
}

pub fn default_read_buffer_size() -> (n: usize)
    ensures
        n == 65535,
{
    65535
}

pub fn default_event_capacity() -> (n: usize)
    ensures
        n == 1024,
{
    1024
}

/// One worker thread per available CPU.
pub fn default_worker_threads() -> (n: usize)
    ensures
        n >= 1,
{
    available_cpus()
}

pub fn default_max_idle_timeout() -> (n: u64)
    ensures
        n == 30_000,
{
    30_000
}

pub fn default_initial_max_data() -> (n: u64)
    ensures
        n == 10_000_000,
{
    10_000_000
}

pub fn default_initial_max_stream_data_bidi() -> (n: u64)
    ensures
        n == 1_000_000,
{
    1_000_000
}

pub fn default_initial_max_stream_data_uni() -> (n: u64)
    ensures
        n == 1_000_000,
{
    1_000_000
}

pub fn default_max_udp_payload_size() -> (n: usize)
    ensures
        n == 1350,
{
    1350
}

pub fn default_congestion_control() -> (s: String)
    ensures
        s@ == "cubic"@,
{
    String::from_str("cubic")
}

pub fn default_max_streams_bidi() -> (n: u64)
    ensures
        n == 100,
{
    100
}

pub fn default_max_streams_uni() -> (n: u64)
    ensures
        n == 100,
{
    100
}

pub fn default_alpn() -> (v: Vec<String>)
    ensures
        v@.len() == 1,
        v@[0]@ == "h3"@,
{
    let mut v: Vec<String> = Vec::new();
    v.push(String::from_str("h3"));
    v
}

pub fn default_min_version() -> (s: String)
    ensures
        s@ == "1.3"@,
{
    String::from_str("1.3")
}

pub fn default_log_level() -> (s: String)
    ensures
        s@ == "info"@,
{
    String::from_str("info")
}

pub fn default_log_format() -> (s: String)
    ensures
        s@ == "combined"@,
{
    String::from_str("combined")
}

/// The QUIC section as it stands when the file gives none of its values.
pub open spec fn is_default_quic(q: QuicConfig) -> bool {
    &&& q.max_idle_timeout == 30_000
    &&& q.initial_max_data == 10_000_000
    &&& q.initial_max_stream_data_bidi_local == 1_000_000
    &&& q.initial_max_stream_data_bidi_remote == 1_000_000
    &&& q.initial_max_stream_data_uni == 1_000_000
    &&& q.max_udp_payload_size == 1350
    &&& q.congestion_control@ == "cubic"@
    &&& !q.enable_early_data
    &&& q.max_streams_bidi == 100
    &&& q.max_streams_uni == 100
}

/// The logging section as it stands when the file gives none of its values.
pub open spec fn is_default_logging(l: LogConfig) -> bool {
    &&& l.level@ == "info"@
    &&& l.format@ == "combined"@
    &&& l.access_log is None
    &&& l.error_log is None
}

impl Default for QuicConfig {
    fn default() -> (q: Self)
        ensures
            is_default_quic(q),
    {
        QuicConfig {
            max_idle_timeout: default_max_idle_timeout(),
            initial_max_data: default_initial_max_data(),
            initial_max_stream_data_bidi_local: default_initial_max_stream_data_bidi(),
            initial_max_stream_data_bidi_remote: default_initial_max_stream_data_bidi(),
            initial_max_stream_data_uni: default_initial_max_stream_data_uni(),
            max_udp_payload_size: default_max_udp_payload_size(),
            congestion_control: default_congestion_control(),
            enable_early_data: false,
            max_streams_bidi: default_max_streams_bidi(),
            max_streams_uni: default_max_streams_uni(),
        }
    }
}

impl Default for LogConfig {
    fn default() -> (l: Self)
        ensures
            is_default_logging(l),
    {
        LogConfig {
            level: default_log_level(),
            format: default_log_format(),
            access_log: None,
            error_log: None,
        }
    }
}

} // verus!
