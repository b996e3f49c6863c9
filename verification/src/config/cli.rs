//! Command-line arguments and what they override.
use vstd::prelude::*;
use super::Config;

verus! {

/// QuBWic - QUIC/HTTP/3 Web Server command line.
#[derive(Clone, Debug)]
pub struct CliArgs {
    /// Path to configuration file.
    pub config: String,
    /// Override log level (trace, debug, info, warn, error).
    pub log_level: Option<String>,
    /// Override server address.
    pub address: Option<String>,
}

/// `current`, or the override where there is one.
pub open spec fn overridden<T>(current: T, value: Option<T>) -> T {
    match value {
        Some(v) => v,
        None => current,
    }
}

impl Config {
    /// Applies the command-line overrides at startup: the log level and the
    /// server address. Nothing else changes.
    pub fn apply_cli_overrides(&mut self, args: &CliArgs)
        ensures
            final(self).logging.level == overridden(old(self).logging.level, args.log_level),
            final(self).server.address == overridden(old(self).server.address, args.address),
            final(self).logging.format == old(self).logging.format,
            final(self).logging.access_log == old(self).logging.access_log,
            final(self).logging.error_log == old(self).logging.error_log,
            final(self).server.worker_threads == old(self).server.worker_threads,
            final(self).server.read_buffer_size == old(self).server.read_buffer_size,
            final(self).server.event_capacity == old(self).server.event_capacity,
            final(self).server.pid_file == old(self).server.pid_file,
            final(self).quic == old(self).quic,
            final(self).tls == old(self).tls,
    {
        match &args.log_level {
            Some(level) => {
                self.logging.level = level.clone();
            },
            None => {},
        }
        match &args.address {
            Some(addr) => {
                self.server.address = addr.clone();
            },
            None => {},
        }
    }

    /// Applies the command-line overrides that survive a reload of the
    /// configuration file: the log level only (the bound address cannot
    /// change while the server runs).
    pub fn apply_reload_overrides(&mut self, args: &CliArgs)
        ensures
            final(self).logging.level == overridden(old(self).logging.level, args.log_level),
            final(self).logging.format == old(self).logging.format,
            final(self).logging.access_log == old(self).logging.access_log,
            final(self).logging.error_log == old(self).logging.error_log,
            final(self).server == old(self).server,
            final(self).quic == old(self).quic,
            final(self).tls == old(self).tls,
    {
        match &args.log_level {
            Some(level) => {
                self.logging.level = level.clone();
            },
            None => {},
        }
    }
}

} // verus!
