use qubwic::logging::{max_log_level, LogLevel};
use qubwic::tls::{congestion_algorithm, CongestionControl};

#[test]
fn log_levels_ignore_case_and_fall_back_to_info() {
    assert_eq!(max_log_level("trace"), LogLevel::Trace);
    assert_eq!(max_log_level("DEBUG"), LogLevel::Debug);
    assert_eq!(max_log_level("Warn"), LogLevel::Warn);
    assert_eq!(max_log_level("error"), LogLevel::Error);
    assert_eq!(max_log_level("off"), LogLevel::Off);
    assert_eq!(max_log_level("info"), LogLevel::Info);
    assert_eq!(max_log_level("verbose"), LogLevel::Info);
    assert_eq!(max_log_level(""), LogLevel::Info);
}

#[test]
fn congestion_algorithms() {
    assert_eq!(congestion_algorithm("cubic"), CongestionControl::Cubic);
    assert_eq!(congestion_algorithm("bbr"), CongestionControl::Bbr);
    assert_eq!(congestion_algorithm("reno"), CongestionControl::Reno);
    assert_eq!(congestion_algorithm("BBR"), CongestionControl::Cubic);
    assert_eq!(congestion_algorithm("vegas"), CongestionControl::Cubic);
}
