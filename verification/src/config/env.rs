//! Environment-variable overrides of the configuration file.
use vstd::prelude::*;
use vstd::utf8::encode_utf8;
use super::{Config, ServerConfig, QuicConfig, TlsConfig, LogConfig};
use super::cli::overridden;
use crate::numeric::{parse_unsigned, parse_bool, unsigned_value};

verus! {

/// The values of the environment variables that override the configuration
/// file, each `None` where the variable is not set (or not valid Unicode).
#[derive(Clone, Debug)]
pub struct EnvOverrides {
    /// `QUBIC_SERVER_ADDRESS`
    pub server_address: Option<String>,
    /// `QUBIC_SERVER_WORKER_THREADS`
    pub server_worker_threads: Option<String>,
    /// `QUBIC_SERVER_PID_FILE`
    pub server_pid_file: Option<String>,
    /// `QUBIC_QUIC_MAX_IDLE_TIMEOUT`
    pub quic_max_idle_timeout: Option<String>,
    /// `QUBIC_QUIC_CONGESTION_CONTROL`
    pub quic_congestion_control: Option<String>,
    /// `QUBIC_QUIC_ENABLE_EARLY_DATA`
    pub quic_enable_early_data: Option<String>,
    /// `QUBIC_TLS_CERT_FILE`
    pub tls_cert_file: Option<String>,
    /// `QUBIC_TLS_KEY_FILE`
    pub tls_key_file: Option<String>,
    /// `QUBIC_LOG_LEVEL`
    pub log_level: Option<String>,
    /// `QUBIC_LOG_FORMAT`
    pub log_format: Option<String>,
    /// `QUBIC_LOG_ACCESS_LOG`
    pub log_access_log: Option<String>,
    /// `QUBIC_LOG_ERROR_LOG`
    pub log_error_log: Option<String>,
}

impl EnvOverrides {
    /// Reads the override variables through `lookup`, which gives the value
    /// of the environment variable of the given name.
    pub fn from_lookup<F: Fn(&str) -> Option<String>>(lookup: F) -> (e: EnvOverrides)
        requires
            forall|name: &str| #[trigger] call_requires(lookup, (name,)),
        ensures
            call_ensures(lookup, ("QUBIC_SERVER_ADDRESS",), e.server_address),
            call_ensures(lookup, ("QUBIC_SERVER_WORKER_THREADS",), e.server_worker_threads),
            call_ensures(lookup, ("QUBIC_SERVER_PID_FILE",), e.server_pid_file),
            call_ensures(lookup, ("QUBIC_QUIC_MAX_IDLE_TIMEOUT",), e.quic_max_idle_timeout),
            call_ensures(lookup, ("QUBIC_QUIC_CONGESTION_CONTROL",), e.quic_congestion_control),
            call_ensures(lookup, ("QUBIC_QUIC_ENABLE_EARLY_DATA",), e.quic_enable_early_data),
            call_ensures(lookup, ("QUBIC_TLS_CERT_FILE",), e.tls_cert_file),
            call_ensures(lookup, ("QUBIC_TLS_KEY_FILE",), e.tls_key_file),
            call_ensures(lookup, ("QUBIC_LOG_LEVEL",), e.log_level),
            call_ensures(lookup, ("QUBIC_LOG_FORMAT",), e.log_format),
            call_ensures(lookup, ("QUBIC_LOG_ACCESS_LOG",), e.log_access_log),
            call_ensures(lookup, ("QUBIC_LOG_ERROR_LOG",), e.log_error_log),
    {
        EnvOverrides {
            server_address: lookup("QUBIC_SERVER_ADDRESS"),
            server_worker_threads: lookup("QUBIC_SERVER_WORKER_THREADS"),
            server_pid_file: lookup("QUBIC_SERVER_PID_FILE"),
            quic_max_idle_timeout: lookup("QUBIC_QUIC_MAX_IDLE_TIMEOUT"),
            quic_congestion_control: lookup("QUBIC_QUIC_CONGESTION_CONTROL"),
            quic_enable_early_data: lookup("QUBIC_QUIC_ENABLE_EARLY_DATA"),
            tls_cert_file: lookup("QUBIC_TLS_CERT_FILE"),
            tls_key_file: lookup("QUBIC_TLS_KEY_FILE"),
            log_level: lookup("QUBIC_LOG_LEVEL"),
            log_format: lookup("QUBIC_LOG_FORMAT"),
            log_access_log: lookup("QUBIC_LOG_ACCESS_LOG"),
            log_error_log: lookup("QUBIC_LOG_ERROR_LOG"),
        }
    }
}

/// The unsigned number that a variable's value reads as, if it is set and
/// reads as one no larger than `max`.
pub open spec fn parsed_unsigned(value: Option<String>, max: nat) -> Option<nat> {
    match value {
        Some(t) => unsigned_value(encode_utf8(t@), max),
        None => None,
    }
}

/// The `bool` that a variable's value reads as, if it is set and is exactly
/// `true` or `false`.
pub open spec fn parsed_bool(value: Option<String>) -> Option<bool> {
    match value {
        Some(t) => if t@ == "true"@ {
            Some(true)
        } else if t@ == "false"@ {
            Some(false)
        } else {
            None
        },
        None => None,
    }
}

/// An optional setting that a set variable replaces.
pub open spec fn overridden_optional(current: Option<String>, value: Option<String>) -> Option<
    String,
> {
    match value {
        Some(v) => Some(v),
        None => current,
    }
}

pub open spec fn server_env_applied(s: ServerConfig, e: EnvOverrides) -> ServerConfig {
    ServerConfig {
        address: overridden(s.address, e.server_address),
        worker_threads: match parsed_unsigned(e.server_worker_threads, usize::MAX as nat) {
            Some(n) => n as usize,
            None => s.worker_threads,
        },
        read_buffer_size: s.read_buffer_size,
        event_capacity: s.event_capacity,
        pid_file: overridden_optional(s.pid_file, e.server_pid_file),
    }
}

pub open spec fn quic_env_applied(q: QuicConfig, e: EnvOverrides) -> QuicConfig {
    QuicConfig {
        max_idle_timeout: match parsed_unsigned(e.quic_max_idle_timeout, u64::MAX as nat) {
            Some(n) => n as u64,
            None => q.max_idle_timeout,
        },
        congestion_control: overridden(q.congestion_control, e.quic_congestion_control),
        enable_early_data: overridden(q.enable_early_data, parsed_bool(e.quic_enable_early_data)),
        ..q
    }
}

pub open spec fn tls_env_applied(t: TlsConfig, e: EnvOverrides) -> TlsConfig {
    TlsConfig {
        cert_file: overridden(t.cert_file, e.tls_cert_file),
        key_file: overridden(t.key_file, e.tls_key_file),
        ..t
    }
}

pub open spec fn logging_env_applied(l: LogConfig, e: EnvOverrides) -> LogConfig {
    LogConfig {
        level: overridden(l.level, e.log_level),
        format: overridden(l.format, e.log_format),
        access_log: overridden_optional(l.access_log, e.log_access_log),
        error_log: overridden_optional(l.error_log, e.log_error_log),
    }
}

/// The configuration `c` with the overrides of `e` applied.
pub open spec fn env_applied(c: Config, e: EnvOverrides) -> Config {
    Config {
        server: server_env_applied(c.server, e),
        quic: quic_env_applied(c.quic, e),
        tls: tls_env_applied(c.tls, e),
        logging: logging_env_applied(c.logging, e),
    }
}

impl Config {
    /// Applies environment variable overrides: a set variable replaces its
    /// setting; a numeric or boolean one only where its value reads as such.
    pub fn apply_env_overrides(&mut self, env: &EnvOverrides)
        ensures
            *final(self) == env_applied(*old(self), *env),
    {
        self.server.apply_env_overrides(env);
        self.quic.apply_env_overrides(env);
        self.tls.apply_env_overrides(env);
        self.logging.apply_env_overrides(env);
    }
}

impl ServerConfig {
    fn apply_env_overrides(&mut self, env: &EnvOverrides)
        ensures
            *final(self) == server_env_applied(*old(self), *env),
    {
        if let Some(val) = &env.server_address {
            self.address = val.clone();
        }
        if let Some(val) = &env.server_worker_threads {
            if let Some(threads) = parse_unsigned(val.as_str(), usize::MAX as u64) {
                self.worker_threads = threads as usize;
            }
        }
        if let Some(val) = &env.server_pid_file {
            self.pid_file = Some(val.clone());
        }
    }
}

impl QuicConfig {
    fn apply_env_overrides(&mut self, env: &EnvOverrides)
        ensures
            *final(self) == quic_env_applied(*old(self), *env),
    {
        if let Some(val) = &env.quic_max_idle_timeout {
            if let Some(timeout) = parse_unsigned(val.as_str(), u64::MAX) {
                self.max_idle_timeout = timeout;
            }
        }
        if let Some(val) = &env.quic_congestion_control {
            self.congestion_control = val.clone();
        }
        if let Some(val) = &env.quic_enable_early_data {
            if let Some(enabled) = parse_bool(val.as_str()) {
                self.enable_early_data = enabled;
            }
        }
    }
}

impl TlsConfig {
    fn apply_env_overrides(&mut self, env: &EnvOverrides)
        ensures
            *final(self) == tls_env_applied(*old(self), *env),
    {
        if let Some(val) = &env.tls_cert_file {
            self.cert_file = val.clone();
        }
        if let Some(val) = &env.tls_key_file {
            self.key_file = val.clone();
        }
    }
}

impl LogConfig {
    fn apply_env_overrides(&mut self, env: &EnvOverrides)
        ensures
            *final(self) == logging_env_applied(*old(self), *env),
    {
        if let Some(val) = &env.log_level {
            self.level = val.clone();
        }
        if let Some(val) = &env.log_format {
            self.format = val.clone();
        }
        if let Some(val) = &env.log_access_log {
            self.access_log = Some(val.clone());
        }
        if let Some(val) = &env.log_error_log {
            self.error_log = Some(val.clone());
        }
    }
}

} // verus!

verus! {

/// With no override variable set, the configuration is left as it is.
pub proof fn law_no_overrides_change_nothing(c: Config, e: EnvOverrides)
    requires
        e.server_address is None,
        e.server_worker_threads is None,
        e.server_pid_file is None,
        e.quic_max_idle_timeout is None,
        e.quic_congestion_control is None,
        e.quic_enable_early_data is None,
        e.tls_cert_file is None,
        e.tls_key_file is None,
        e.log_level is None,
        e.log_format is None,
        e.log_access_log is None,
        e.log_error_log is None,
    ensures
        env_applied(c, e) == c,
{
}

/// Applying the same overrides twice gives what applying them once gives.
pub proof fn law_overrides_idempotent(c: Config, e: EnvOverrides)
    ensures
        env_applied(env_applied(c, e), e) == env_applied(c, e),
{
}

} // verus!

verus! {

/// A set variable replaces its setting, whatever the file said: each text
/// setting takes the variable's value, and each optional path becomes that
/// value.
pub proof fn law_set_variables_replace(c: Config, e: EnvOverrides)
    ensures
        e.server_address matches Some(v) ==> env_applied(c, e).server.address == v,
        e.server_pid_file matches Some(v) ==> env_applied(c, e).server.pid_file == Some(v),
        e.quic_congestion_control matches Some(v) ==> env_applied(c, e).quic.congestion_control
            == v,
        e.tls_cert_file matches Some(v) ==> env_applied(c, e).tls.cert_file == v,
        e.tls_key_file matches Some(v) ==> env_applied(c, e).tls.key_file == v,
        e.log_level matches Some(v) ==> env_applied(c, e).logging.level == v,
        e.log_format matches Some(v) ==> env_applied(c, e).logging.format == v,
        e.log_access_log matches Some(v) ==> env_applied(c, e).logging.access_log == Some(v),
        e.log_error_log matches Some(v) ==> env_applied(c, e).logging.error_log == Some(v),
{
}

/// The early-data variable sets 0-RTT on or off, whatever the file said:
/// `true` turns it on, `false` turns it off, and any other text (or no
/// variable) leaves the file's choice.
pub proof fn law_early_data_variable(c: Config, e: EnvOverrides)
    ensures
        e.quic_enable_early_data matches Some(v) && v@ == "true"@ ==> env_applied(
            c,
            e,
        ).quic.enable_early_data,
        e.quic_enable_early_data matches Some(v) && v@ == "false"@ ==> !env_applied(
            c,
            e,
        ).quic.enable_early_data,
        (e.quic_enable_early_data matches Some(v) ==> v@ != "true"@ && v@ != "false"@) ==> env_applied(
            c,
            e,
        ).quic.enable_early_data == c.quic.enable_early_data,
{
    reveal_strlit("true");
    reveal_strlit("false");
    assert("true"@.len() != "false"@.len());
}

/// A numeric variable whose text is one or more decimal digits (with at
/// most a leading `+`) whose value fits sets its setting to that value.
pub proof fn law_numeric_variables(c: Config, e: EnvOverrides, d: Seq<u8>)
    ensures
        (e.quic_max_idle_timeout matches Some(v) && (encode_utf8(v@) == d || encode_utf8(v@)
            == seq![43u8] + d) && d.len() > 0 && crate::numeric::all_digits(d)
            && crate::numeric::digits_value(d) <= u64::MAX) ==> env_applied(
            c,
            e,
        ).quic.max_idle_timeout == crate::numeric::digits_value(d),
        (e.server_worker_threads matches Some(v) && (encode_utf8(v@) == d || encode_utf8(v@)
            == seq![43u8] + d) && d.len() > 0 && crate::numeric::all_digits(d)
            && crate::numeric::digits_value(d) <= usize::MAX) ==> env_applied(
            c,
            e,
        ).server.worker_threads == crate::numeric::digits_value(d),
{
    if let Some(v) = e.quic_max_idle_timeout {
        let b = encode_utf8(v@);
        if b == seq![43u8] + d && d.len() > 0 && crate::numeric::all_digits(d) {
            assert(b.drop_first() =~= d);
        }
        if b == d && d.len() > 0 && crate::numeric::all_digits(d) {
            assert(b[0] != 43u8);
        }
    }
    if let Some(v) = e.server_worker_threads {
        let b = encode_utf8(v@);
        if b == seq![43u8] + d && d.len() > 0 && crate::numeric::all_digits(d) {
            assert(b.drop_first() =~= d);
        }
        if b == d && d.len() > 0 && crate::numeric::all_digits(d) {
            assert(b[0] != 43u8);
        }
    }
}

} // verus!
