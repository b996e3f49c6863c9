//! Validation of a loaded configuration.
use vstd::prelude::*;
use vstd::utf8::encode_utf8;
use super::Config;
use super::error::{ConfigError, ConfigErrorView};
use super::env::{EnvOverrides, env_applied};
use crate::net::{parse_socket_addr, socket_addr_text};
use crate::numeric::{decimal_string, decimal_text};

verus! {

/// The log levels that the configuration accepts.
pub open spec fn is_log_level(level: Seq<char>) -> bool {
    level == "trace"@ || level == "debug"@ || level == "info"@ || level == "warn"@ || level
        == "error"@
}

/// The congestion control algorithms that the configuration accepts.
pub open spec fn is_congestion_control(algorithm: Seq<char>) -> bool {
    algorithm == "cubic"@ || algorithm == "bbr"@ || algorithm == "reno"@
}

/// The first thing wrong with configuration `c`, checked in this order:
/// the server address, the certificate and key files (`cert_exists`,
/// `key_exists` say whether they exist), the log level, the congestion
/// control algorithm, the QUIC parameters, the server parameters.
pub open spec fn config_problem(c: Config, cert_exists: bool, key_exists: bool) -> Option<
    ConfigErrorView,
> {
    if c.server.address@.len() == 0 {
        Some(ConfigErrorView::InvalidAddress { address: "(empty)"@ })
    } else if !socket_addr_text(encode_utf8(c.server.address@)) {
        Some(ConfigErrorView::InvalidAddress { address: c.server.address@ })
    } else if !cert_exists {
        Some(ConfigErrorView::CertFileNotFound { path: c.tls.cert_file@ })
    } else if !key_exists {
        Some(ConfigErrorView::KeyFileNotFound { path: c.tls.key_file@ })
    } else if !is_log_level(c.logging.level@) {
        Some(ConfigErrorView::InvalidLogLevel { level: c.logging.level@ })
    } else if !is_congestion_control(c.quic.congestion_control@) {
        Some(ConfigErrorView::InvalidCongestionControl { algorithm: c.quic.congestion_control@ })
    } else if c.quic.max_idle_timeout == 0 {
        Some(
            ConfigErrorView::InvalidParameter {
                parameter: "max_idle_timeout"@,
                value: "0"@,
                message: "Timeout must be greater than 0"@,
            },
        )
    } else if c.quic.max_udp_payload_size < 1200 {
        Some(
            ConfigErrorView::InvalidParameter {
                parameter: "max_udp_payload_size"@,
                value: decimal_text(c.quic.max_udp_payload_size as nat),
                message: "Must be at least 1200 bytes (QUIC minimum)"@,
            },
        )
    } else if c.quic.max_udp_payload_size > 65535 {
        Some(
            ConfigErrorView::InvalidParameter {
                parameter: "max_udp_payload_size"@,
                value: decimal_text(c.quic.max_udp_payload_size as nat),
                message: "Must not exceed 65535 bytes (UDP maximum)"@,
            },
        )
    } else if c.server.read_buffer_size < c.quic.max_udp_payload_size {
        Some(
            ConfigErrorView::InvalidParameter {
                parameter: "read_buffer_size"@,
                value: decimal_text(c.server.read_buffer_size as nat),
                message: "Buffer size must be at least as large as max_udp_payload_size ("@
                    + decimal_text(c.quic.max_udp_payload_size as nat) + ")"@,
            },
        )
    } else if c.server.event_capacity == 0 {
        Some(
            ConfigErrorView::InvalidParameter {
                parameter: "event_capacity"@,
                value: "0"@,
                message: "Event capacity must be greater than 0"@,
            },
        )
    } else {
        None
    }
}

/// `r` reports exactly `problem`: `Ok` where there is none, else that error.
pub open spec fn reports(r: Result<(), ConfigError>, problem: Option<ConfigErrorView>) -> bool {
    match r {
        Ok(()) => problem is None,
        Err(e) => problem == Some(e@),
    }
}

/// `cert_exists` and `key_exists` are the answers that `file_exists` gives
/// for the certificate path and, where the certificate exists, for the key
/// path of `c`; neither is asked where the server address is invalid.
pub open spec fn files_probed<F: Fn(&str) -> bool>(
    c: Config,
    file_exists: F,
    cert_exists: bool,
    key_exists: bool,
) -> bool {
    exists|pc: &str, pk: &str|
        #![trigger pc@, pk@]
        pc@ == c.tls.cert_file@ && pk@ == c.tls.key_file@ && (socket_addr_text(
            encode_utf8(c.server.address@),
        ) ==> call_ensures(file_exists, (pc,), cert_exists)) && (socket_addr_text(
            encode_utf8(c.server.address@),
        ) && cert_exists ==> call_ensures(file_exists, (pk,), key_exists))
}

/// `s` holds exactly the text `lit`.
fn text_is(s: &String, lit: &str) -> (r: bool)
    ensures
        r == (s@ == lit@),
{
    let t = String::from_str(lit);
    *s == t
}

fn invalid_parameter(parameter: &str, value: String, message: String) -> (e: ConfigError)
    ensures
        e@ == (ConfigErrorView::InvalidParameter {
            parameter: parameter@,
            value: value@,
            message: message@,
        }),
{
    ConfigError::InvalidParameter { parameter: String::from_str(parameter), value, message }
}

impl Config {
    /// Validates the configuration, given whether the certificate file and
    /// the private key file exist, and reports the first problem found.
    pub fn validate_with_files(&self, cert_exists: bool, key_exists: bool) -> (r: Result<
        (),
        ConfigError,
    >)
        ensures
            reports(r, config_problem(*self, cert_exists, key_exists)),
    {
        if self.server.address.as_str().is_empty() {
            return Err(ConfigError::InvalidAddress { address: String::from_str("(empty)") });
        }
        if parse_socket_addr(self.server.address.as_str()).is_none() {
            return Err(ConfigError::InvalidAddress { address: self.server.address.clone() });
        }
        if !cert_exists {
            return Err(ConfigError::CertFileNotFound { path: self.tls.cert_file.clone() });
        }
        if !key_exists {
            return Err(ConfigError::KeyFileNotFound { path: self.tls.key_file.clone() });
        }
        let level = &self.logging.level;
        if !(text_is(level, "trace") || text_is(level, "debug") || text_is(level, "info")
            || text_is(level, "warn") || text_is(level, "error")) {
            return Err(ConfigError::InvalidLogLevel { level: level.clone() });
        }
        let cc = &self.quic.congestion_control;
        if !(text_is(cc, "cubic") || text_is(cc, "bbr") || text_is(cc, "reno")) {
            return Err(ConfigError::InvalidCongestionControl { algorithm: cc.clone() });
        }
        if self.quic.max_idle_timeout == 0 {
            return Err(
                invalid_parameter(
                    "max_idle_timeout",
                    String::from_str("0"),
                    String::from_str("Timeout must be greater than 0"),
                ),
            );
        }
        let payload = self.quic.max_udp_payload_size;
        if payload < 1200 {
            return Err(
                invalid_parameter(
                    "max_udp_payload_size",
                    decimal_string(payload as u64),
                    String::from_str("Must be at least 1200 bytes (QUIC minimum)"),
                ),
            );
        }
        if payload > 65535 {
            return Err(
                invalid_parameter(
                    "max_udp_payload_size",
                    decimal_string(payload as u64),
                    String::from_str("Must not exceed 65535 bytes (UDP maximum)"),
                ),
            );
        }
        if self.server.read_buffer_size < payload {
            let mut message = String::from_str(
                "Buffer size must be at least as large as max_udp_payload_size (",
            );
            let size = decimal_string(payload as u64);
            message.append(size.as_str());
            message.append(")");
            return Err(
                invalid_parameter(
                    "read_buffer_size",
                    decimal_string(self.server.read_buffer_size as u64),
                    message,
                ),
            );
        }
        if self.server.event_capacity == 0 {
            return Err(
                invalid_parameter(
                    "event_capacity",
                    String::from_str("0"),
                    String::from_str("Event capacity must be greater than 0"),
                ),
            );
        }
        Ok(())
    }

    /// Validates the configuration with detailed error messages, asking
    /// `file_exists` whether the certificate file and then (where it exists)
    /// the private key file exist. An invalid address is reported before any
    /// file is asked about.
    pub fn validate<F: Fn(&str) -> bool>(&self, file_exists: F) -> (r: Result<(), ConfigError>)
        requires
            forall|p: &str| #[trigger] call_requires(file_exists, (p,)),
        ensures
            exists|cert_exists: bool, key_exists: bool|
                #![trigger config_problem(*self, cert_exists, key_exists)]
                files_probed(*self, file_exists, cert_exists, key_exists) && reports(
                    r,
                    config_problem(*self, cert_exists, key_exists),
                ),
    {
        let pc = self.tls.cert_file.as_str();
        let pk = self.tls.key_file.as_str();
        let empty = self.server.address.as_str().is_empty();
        if empty || parse_socket_addr(self.server.address.as_str()).is_none() {
            proof {
                if empty {
                    assert(encode_utf8(self.server.address@) =~= Seq::<u8>::empty());
                }
                assert(!socket_addr_text(encode_utf8(self.server.address@)));
                assert(files_probed(*self, file_exists, false, false)) by {
                    assert(pc@ == self.tls.cert_file@ && pk@ == self.tls.key_file@);
                }
            }
            let r = self.validate_with_files(false, false);
            return r;
        }
        let cert_exists = file_exists(pc);
        let key_exists = if cert_exists {
            file_exists(pk)
        } else {
            false
        };
        proof {
            assert(files_probed(*self, file_exists, cert_exists, key_exists)) by {
                assert(pc@ == self.tls.cert_file@ && pk@ == self.tls.key_file@);
            }
        }
        self.validate_with_files(cert_exists, key_exists)
    }

    /// Finishes loading a configuration read from its file: the environment
    /// overrides are applied first, and the result is then validated (with
    /// `file_exists` asked about its files); the configuration comes back
    /// only where it is valid.
    pub fn finish_load<F: Fn(&str) -> bool>(self, env: &EnvOverrides, file_exists: F) -> (r:
        Result<Config, ConfigError>)
        requires
            forall|p: &str| #[trigger] call_requires(file_exists, (p,)),
        ensures
            exists|cert_exists: bool, key_exists: bool|
                #![trigger config_problem(env_applied(self, *env), cert_exists, key_exists)]
                files_probed(env_applied(self, *env), file_exists, cert_exists, key_exists)
                    && match r {
                    Ok(c) => c == env_applied(self, *env) && config_problem(
                        c,
                        cert_exists,
                        key_exists,
                    ) is None,
                    Err(e) => config_problem(env_applied(self, *env), cert_exists, key_exists)
                        == Some(e@),
                },
    {
        let mut c = self;
        c.apply_env_overrides(env);
        match c.validate(file_exists) {
            Ok(()) => Ok(c),
            Err(e) => Err(e),
        }
    }
}

} // verus!

verus! {

/// An invalid server address is reported whatever the file system holds.
pub proof fn law_address_checked_first(c: Config, cert_exists: bool, key_exists: bool)
    requires
        c.server.address@.len() == 0 || !socket_addr_text(encode_utf8(c.server.address@)),
    ensures
        config_problem(c, cert_exists, key_exists) == config_problem(c, false, false),
        config_problem(c, cert_exists, key_exists) matches Some(ConfigErrorView::InvalidAddress {
            ..
        }),
{
}

/// The default QUIC and logging sections pass validation: a configuration
/// that keeps them, with a valid address, existing certificate and key
/// files, a read buffer at least as large as the default UDP payload and
/// some event capacity, is valid.
pub proof fn law_defaults_are_valid(c: Config)
    requires
        crate::config::is_default_quic(c.quic),
        crate::config::is_default_logging(c.logging),
        socket_addr_text(encode_utf8(c.server.address@)),
        c.server.read_buffer_size >= 1350,
        c.server.event_capacity > 0,
    ensures
        config_problem(c, true, true) is None,
{
    reveal_strlit("cubic");
    reveal_strlit("info");
    assert(c.server.address@.len() > 0) by {
        if c.server.address@.len() == 0 {
            assert(encode_utf8(c.server.address@) =~= Seq::<u8>::empty());
            assert(!crate::net::socket_v4_text(Seq::<u8>::empty()));
        }
    }
}

/// What a configuration that passes validation guarantees to the server
/// that runs with it: its address reads as a socket address (so binding to
/// it is possible), its files exist, its log level and congestion control
/// are known names, and its sizes are usable.
pub proof fn law_valid_config_guarantees(c: Config, cert_exists: bool, key_exists: bool)
    requires
        config_problem(c, cert_exists, key_exists) is None,
    ensures
        socket_addr_text(encode_utf8(c.server.address@)),
        cert_exists,
        key_exists,
        is_log_level(c.logging.level@),
        c.logging.level@ == "trace"@ || c.logging.level@ == "debug"@ || c.logging.level@
            == "info"@ || c.logging.level@ == "warn"@ || c.logging.level@ == "error"@,
        is_congestion_control(c.quic.congestion_control@),
        c.quic.congestion_control@ == "cubic"@ || c.quic.congestion_control@ == "bbr"@
            || c.quic.congestion_control@ == "reno"@,
        c.quic.max_idle_timeout > 0,
        1200 <= c.quic.max_udp_payload_size <= 65535,
        c.server.read_buffer_size >= c.quic.max_udp_payload_size,
        c.server.event_capacity > 0,
{
}

} // verus!

verus! {

/// A configuration passes validation when its address reads as a socket
/// address, both files exist, its log level is one of trace, debug, info,
/// warn, error, its congestion control one of cubic, bbr, reno, its idle
/// timeout is set, its UDP payload size lies in 1200..=65535, its read
/// buffer holds a payload, and it has event capacity.
pub proof fn law_valid_configs_pass(c: Config)
    requires
        socket_addr_text(encode_utf8(c.server.address@)),
        c.logging.level@ == "trace"@ || c.logging.level@ == "debug"@ || c.logging.level@
            == "info"@ || c.logging.level@ == "warn"@ || c.logging.level@ == "error"@,
        c.quic.congestion_control@ == "cubic"@ || c.quic.congestion_control@ == "bbr"@
            || c.quic.congestion_control@ == "reno"@,
        c.quic.max_idle_timeout > 0,
        1200 <= c.quic.max_udp_payload_size <= 65535,
        c.server.read_buffer_size >= c.quic.max_udp_payload_size,
        c.server.event_capacity > 0,
    ensures
        config_problem(c, true, true) is None,
{
    assert(c.server.address@.len() > 0) by {
        if c.server.address@.len() == 0 {
            assert(encode_utf8(c.server.address@) =~= Seq::<u8>::empty());
        }
    }
}

/// Past the address and the files, each problem is reported as its own
/// kind of error, naming what is wrong, in the documented order: the log
/// level, then the congestion control, then the idle timeout, the UDP
/// payload size, the read buffer size and the event capacity.
pub proof fn law_problem_kinds(c: Config)
    requires
        socket_addr_text(encode_utf8(c.server.address@)),
    ensures
        !(c.logging.level@ == "trace"@ || c.logging.level@ == "debug"@ || c.logging.level@
            == "info"@ || c.logging.level@ == "warn"@ || c.logging.level@ == "error"@)
            ==> config_problem(c, true, true) == Some(
            ConfigErrorView::InvalidLogLevel { level: c.logging.level@ },
        ),
        is_log_level(c.logging.level@) && !(c.quic.congestion_control@ == "cubic"@
            || c.quic.congestion_control@ == "bbr"@ || c.quic.congestion_control@ == "reno"@)
            ==> config_problem(c, true, true) == Some(
            ConfigErrorView::InvalidCongestionControl { algorithm: c.quic.congestion_control@ },
        ),
        is_log_level(c.logging.level@) && is_congestion_control(c.quic.congestion_control@)
            && c.quic.max_idle_timeout == 0 ==> (config_problem(c, true, true) matches Some(
            ConfigErrorView::InvalidParameter { parameter, .. },
        ) && parameter == "max_idle_timeout"@),
        is_log_level(c.logging.level@) && is_congestion_control(c.quic.congestion_control@)
            && c.quic.max_idle_timeout > 0 && !(1200 <= c.quic.max_udp_payload_size <= 65535)
            ==> (config_problem(c, true, true) matches Some(
            ConfigErrorView::InvalidParameter { parameter, value, .. },
        ) && parameter == "max_udp_payload_size"@ && value == decimal_text(
            c.quic.max_udp_payload_size as nat,
        )),
        is_log_level(c.logging.level@) && is_congestion_control(c.quic.congestion_control@)
            && c.quic.max_idle_timeout > 0 && 1200 <= c.quic.max_udp_payload_size <= 65535
            && c.server.read_buffer_size < c.quic.max_udp_payload_size ==> (config_problem(
            c,
            true,
            true,
        ) matches Some(ConfigErrorView::InvalidParameter { parameter, value, .. }) && parameter
            == "read_buffer_size"@ && value == decimal_text(c.server.read_buffer_size as nat)),
        is_log_level(c.logging.level@) && is_congestion_control(c.quic.congestion_control@)
            && c.quic.max_idle_timeout > 0 && 1200 <= c.quic.max_udp_payload_size <= 65535
            && c.server.read_buffer_size >= c.quic.max_udp_payload_size
            && c.server.event_capacity == 0 ==> (config_problem(c, true, true) matches Some(
            ConfigErrorView::InvalidParameter { parameter, .. },
        ) && parameter == "event_capacity"@),
{
    assert(c.server.address@.len() > 0) by {
        if c.server.address@.len() == 0 {
            assert(encode_utf8(c.server.address@) =~= Seq::<u8>::empty());
        }
    }
}

} // verus!
