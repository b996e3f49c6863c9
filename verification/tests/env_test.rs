use qubwic::config::{default_event_capacity, default_read_buffer_size, CliArgs, Config,
    EnvOverrides, LogConfig, QuicConfig, ServerConfig, TlsConfig};

fn base() -> Config {
    Config {
        server: ServerConfig {
            address: "127.0.0.1:4433".to_string(),
            worker_threads: 4,
            read_buffer_size: default_read_buffer_size(),
            event_capacity: default_event_capacity(),
            pid_file: None,
        },
        quic: QuicConfig::default(),
        tls: TlsConfig {
            cert_file: "cert.pem".to_string(),
            key_file: "key.pem".to_string(),
            alpn: vec!["h3".to_string()],
            min_version: "1.3".to_string(),
        },
        logging: LogConfig::default(),
    }
}

fn env_from(pairs: &[(&str, &str)]) -> EnvOverrides {
    EnvOverrides::from_lookup(|name: &str| {
        pairs.iter().find(|(n, _)| *n == name).map(|(_, v)| v.to_string())
    })
}

#[test]
fn no_variables_change_nothing() {
    let mut c = base();
    c.apply_env_overrides(&env_from(&[]));
    assert_eq!(c.server.address, "127.0.0.1:4433");
    assert_eq!(c.server.worker_threads, 4);
    assert_eq!(c.quic.max_idle_timeout, 30_000);
    assert_eq!(c.logging.level, "info");
}

#[test]
fn every_variable_overrides_its_setting() {
    let mut c = base();
    let env = env_from(&[
        ("QUBIC_SERVER_ADDRESS", "0.0.0.0:443"),
        ("QUBIC_SERVER_WORKER_THREADS", "+8"),
        ("QUBIC_SERVER_PID_FILE", "/run/q.pid"),
        ("QUBIC_QUIC_MAX_IDLE_TIMEOUT", "5000"),
        ("QUBIC_QUIC_CONGESTION_CONTROL", "bbr"),
        ("QUBIC_QUIC_ENABLE_EARLY_DATA", "true"),
        ("QUBIC_TLS_CERT_FILE", "c2.pem"),
        ("QUBIC_TLS_KEY_FILE", "k2.pem"),
        ("QUBIC_LOG_LEVEL", "debug"),
        ("QUBIC_LOG_FORMAT", "json"),
        ("QUBIC_LOG_ACCESS_LOG", "access.log"),
        ("QUBIC_LOG_ERROR_LOG", "error.log"),
    ]);
    c.apply_env_overrides(&env);
    assert_eq!(c.server.address, "0.0.0.0:443");
    assert_eq!(c.server.worker_threads, 8);
    assert_eq!(c.server.pid_file.as_deref(), Some("/run/q.pid"));
    assert_eq!(c.quic.max_idle_timeout, 5000);
    assert_eq!(c.quic.congestion_control, "bbr");
    assert!(c.quic.enable_early_data);
    assert_eq!(c.tls.cert_file, "c2.pem");
    assert_eq!(c.tls.key_file, "k2.pem");
    assert_eq!(c.logging.level, "debug");
    assert_eq!(c.logging.format, "json");
    assert_eq!(c.logging.access_log.as_deref(), Some("access.log"));
    assert_eq!(c.logging.error_log.as_deref(), Some("error.log"));
    assert_eq!(c.server.read_buffer_size, 65535);
}

#[test]
fn unreadable_numbers_and_flags_are_ignored() {
    let mut c = base();
    let env = env_from(&[
        ("QUBIC_SERVER_WORKER_THREADS", "-2"),
        ("QUBIC_QUIC_MAX_IDLE_TIMEOUT", "18446744073709551616"),
        ("QUBIC_QUIC_ENABLE_EARLY_DATA", "TRUE"),
    ]);
    c.apply_env_overrides(&env);
    assert_eq!(c.server.worker_threads, 4);
    assert_eq!(c.quic.max_idle_timeout, 30_000);
    assert!(!c.quic.enable_early_data);
}

#[test]
fn overrides_are_idempotent() {
    let env = env_from(&[("QUBIC_LOG_LEVEL", "trace"), ("QUBIC_QUIC_MAX_IDLE_TIMEOUT", "7")]);
    let mut once = base();
    once.apply_env_overrides(&env);
    let mut twice = base();
    twice.apply_env_overrides(&env);
    twice.apply_env_overrides(&env);
    assert_eq!(once.logging.level, twice.logging.level);
    assert_eq!(once.quic.max_idle_timeout, twice.quic.max_idle_timeout);
    assert_eq!(twice.quic.max_idle_timeout, 7);
}

#[test]
fn cli_overrides_address_and_level() {
    let mut c = base();
    let args = CliArgs {
        config: "server.toml".to_string(),
        log_level: Some("warn".to_string()),
        address: Some("[::1]:9000".to_string()),
    };
    c.apply_cli_overrides(&args);
    assert_eq!(c.logging.level, "warn");
    assert_eq!(c.server.address, "[::1]:9000");

    let mut r = base();
    r.apply_reload_overrides(&args);
    assert_eq!(r.logging.level, "warn");
    assert_eq!(r.server.address, "127.0.0.1:4433");

    let none = CliArgs { config: "server.toml".to_string(), log_level: None, address: None };
    let mut u = base();
    u.apply_cli_overrides(&none);
    assert_eq!(u.logging.level, "info");
    assert_eq!(u.server.address, "127.0.0.1:4433");
}
