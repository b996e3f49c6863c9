use qubwic::config::{
    default_event_capacity, default_read_buffer_size, Config, ConfigError, LogConfig, QuicConfig,
    ServerConfig, TlsConfig,
};

/// A path that exists wherever the tests run (their working directory).
const EXISTING_PATH: &str = ".";

fn file_exists(path: &str) -> bool {
    std::path::Path::new(path).exists()
}

fn server(address: &str) -> ServerConfig {
    ServerConfig {
        address: address.to_string(),
        worker_threads: 1,
        read_buffer_size: default_read_buffer_size(),
        event_capacity: default_event_capacity(),
        pid_file: None,
    }
}

fn config(address: &str, cert: &str, key: &str) -> Config {
    Config {
        server: server(address),
        quic: QuicConfig::default(),
        tls: TlsConfig {
            cert_file: cert.to_string(),
            key_file: key.to_string(),
            alpn: vec!["h3".to_string()],
            min_version: "1.3".to_string(),
        },
        logging: LogConfig::default(),
    }
}

#[test]
fn test_validate_valid_config() {
    let cert_path = std::path::Path::new(EXISTING_PATH);
    let key_path = std::path::Path::new(EXISTING_PATH);

    let config = Config {
        server: ServerConfig {
            address: "127.0.0.1:4433".to_string(),
            worker_threads: 1,
            read_buffer_size: default_read_buffer_size(),
            event_capacity: default_event_capacity(),
            pid_file: None,
        },
        quic: QuicConfig::default(),
        tls: TlsConfig {
            cert_file: cert_path.to_str().unwrap().to_string(),
            key_file: key_path.to_str().unwrap().to_string(),
            alpn: vec!["h3".to_string()],
            min_version: "1.3".to_string(),
        },
        logging: LogConfig::default(),
    };

    assert!(config.validate(file_exists).is_ok());
}

#[test]
fn test_validate_invalid_address() {
    let config = Config {
        server: ServerConfig {
            address: "invalid-ip".to_string(),
            worker_threads: 1,
            read_buffer_size: default_read_buffer_size(),
            event_capacity: default_event_capacity(),
            pid_file: None,
        },
        quic: QuicConfig::default(),
        tls: TlsConfig {
            cert_file: "cert".to_string(),
            key_file: "key".to_string(),
            alpn: vec![],
            min_version: "1.3".to_string(),
        },
        logging: LogConfig::default(),
    };

    assert!(config.validate(file_exists).is_err());
}

#[test]
fn test_validate_missing_cert() {
    let config = Config {
        server: ServerConfig {
            address: "127.0.0.1:4433".to_string(),
            worker_threads: 1,
            read_buffer_size: default_read_buffer_size(),
            event_capacity: default_event_capacity(),
            pid_file: None,
        },
        quic: QuicConfig::default(),
        tls: TlsConfig {
            cert_file: "/non/existent/path/cert.pem".to_string(),
            key_file: "/non/existent/path/key.pem".to_string(),
            alpn: vec![],
            min_version: "1.3".to_string(),
        },
        logging: LogConfig::default(),
    };

    assert!(config.validate(file_exists).is_err());
}

#[test]
fn validate_reports_empty_address() {
    let c = config("", "c", "k");
    match c.validate_with_files(true, true) {
        Err(ConfigError::InvalidAddress { address }) => assert_eq!(address, "(empty)"),
        other => panic!("unexpected {:?}", other),
    }
}

#[test]
fn validate_reports_bad_address_before_files() {
    let c = config("invalid-ip", "c", "k");
    match c.validate(file_exists) {
        Err(ConfigError::InvalidAddress { address }) => assert_eq!(address, "invalid-ip"),
        other => panic!("unexpected {:?}", other),
    }
}

#[test]
fn validate_reports_missing_cert_then_key() {
    let c = config("127.0.0.1:4433", "/non/existent/cert.pem", "/non/existent/key.pem");
    match c.validate(file_exists) {
        Err(ConfigError::CertFileNotFound { path }) => assert_eq!(path, "/non/existent/cert.pem"),
        other => panic!("unexpected {:?}", other),
    }
    match c.validate_with_files(true, false) {
        Err(ConfigError::KeyFileNotFound { path }) => assert_eq!(path, "/non/existent/key.pem"),
        other => panic!("unexpected {:?}", other),
    }
}

#[test]
fn validate_reports_log_level_and_algorithm() {
    let mut c = config("[::1]:4433", "c", "k");
    c.logging.level = "verbose".to_string();
    match c.validate_with_files(true, true) {
        Err(ConfigError::InvalidLogLevel { level }) => assert_eq!(level, "verbose"),
        other => panic!("unexpected {:?}", other),
    }
    c.logging.level = "warn".to_string();
    c.quic.congestion_control = "vegas".to_string();
    match c.validate_with_files(true, true) {
        Err(ConfigError::InvalidCongestionControl { algorithm }) => assert_eq!(algorithm, "vegas"),
        other => panic!("unexpected {:?}", other),
    }
    c.quic.congestion_control = "bbr".to_string();
    assert!(c.validate_with_files(true, true).is_ok());
}

fn expect_parameter(c: &Config, parameter: &str, value: &str, message: &str) {
    match c.validate_with_files(true, true) {
        Err(ConfigError::InvalidParameter { parameter: p, value: v, message: m }) => {
            assert_eq!(p, parameter);
            assert_eq!(v, value);
            assert_eq!(m, message);
        }
        other => panic!("unexpected {:?}", other),
    }
}

#[test]
fn validate_reports_parameters() {
    let mut c = config("127.0.0.1:4433", "c", "k");
    c.quic.max_idle_timeout = 0;
    expect_parameter(&c, "max_idle_timeout", "0", "Timeout must be greater than 0");
    c.quic.max_idle_timeout = 1;
    c.quic.max_udp_payload_size = 1199;
    expect_parameter(&c, "max_udp_payload_size", "1199", "Must be at least 1200 bytes (QUIC minimum)");
    c.quic.max_udp_payload_size = 65536;
    expect_parameter(&c, "max_udp_payload_size", "65536", "Must not exceed 65535 bytes (UDP maximum)");
    c.quic.max_udp_payload_size = 1350;
    c.server.read_buffer_size = 1000;
    expect_parameter(
        &c,
        "read_buffer_size",
        "1000",
        "Buffer size must be at least as large as max_udp_payload_size (1350)",
    );
    c.server.read_buffer_size = 1350;
    c.server.event_capacity = 0;
    expect_parameter(&c, "event_capacity", "0", "Event capacity must be greater than 0");
    c.server.event_capacity = 1;
    assert!(c.validate_with_files(true, true).is_ok());
}

#[test]
fn defaults_are_as_documented() {
    let q = QuicConfig::default();
    assert_eq!(q.max_idle_timeout, 30_000);
    assert_eq!(q.initial_max_data, 10_000_000);
    assert_eq!(q.initial_max_stream_data_bidi_local, 1_000_000);
    assert_eq!(q.initial_max_stream_data_bidi_remote, 1_000_000);
    assert_eq!(q.initial_max_stream_data_uni, 1_000_000);
    assert_eq!(q.max_udp_payload_size, 1350);
    assert_eq!(q.congestion_control, "cubic");
    assert!(!q.enable_early_data);
    assert_eq!(q.max_streams_bidi, 100);
    assert_eq!(q.max_streams_uni, 100);
    let l = LogConfig::default();
    assert_eq!(l.level, "info");
    assert_eq!(l.format, "combined");
    assert!(l.access_log.is_none() && l.error_log.is_none());
    assert_eq!(default_read_buffer_size(), 65535);
    assert_eq!(default_event_capacity(), 1024);
    assert_eq!(qubwic::config::default_alpn(), vec!["h3".to_string()]);
    assert_eq!(qubwic::config::default_min_version(), "1.3");
    assert!(qubwic::config::default_worker_threads() >= 1);
}

#[test]
fn default_sections_with_valid_server_validate() {
    let c = config("10.0.0.1:443", "c", "k");
    assert!(c.validate_with_files(true, true).is_ok());
}

#[test]
fn validate_asks_about_cert_then_key() {
    let asked = std::cell::RefCell::new(Vec::<String>::new());
    let c = config("127.0.0.1:4433", "cert.pem", "key.pem");
    let r = c.validate(|p: &str| {
        asked.borrow_mut().push(p.to_string());
        p == "cert.pem"
    });
    assert!(matches!(r, Err(ConfigError::KeyFileNotFound { .. })));
    assert_eq!(*asked.borrow(), vec!["cert.pem".to_string(), "key.pem".to_string()]);

    asked.borrow_mut().clear();
    let r = c.validate(|p: &str| {
        asked.borrow_mut().push(p.to_string());
        false
    });
    assert!(matches!(r, Err(ConfigError::CertFileNotFound { .. })));
    assert_eq!(*asked.borrow(), vec!["cert.pem".to_string()]);

    asked.borrow_mut().clear();
    let bad = config("nowhere", "cert.pem", "key.pem");
    let r = bad.validate(|p: &str| {
        asked.borrow_mut().push(p.to_string());
        true
    });
    assert!(matches!(r, Err(ConfigError::InvalidAddress { .. })));
    assert!(asked.borrow().is_empty());
}

#[test]
fn finish_load_applies_overrides_before_validating() {
    let c = config("invalid-ip", "c", "k");
    let env = qubwic::config::EnvOverrides::from_lookup(|name: &str| {
        if name == "QUBIC_SERVER_ADDRESS" { Some("127.0.0.1:4433".to_string()) } else { None }
    });
    let loaded = c.clone().finish_load(&env, |_: &str| true).expect("valid after overrides");
    assert_eq!(loaded.server.address, "127.0.0.1:4433");
    let none = qubwic::config::EnvOverrides::from_lookup(|_: &str| None);
    assert!(matches!(
        c.finish_load(&none, |_: &str| true),
        Err(ConfigError::InvalidAddress { .. })
    ));
}
