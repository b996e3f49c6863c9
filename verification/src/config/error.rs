//! What can be wrong with a configuration.
use vstd::prelude::*;

verus! {

/// Configuration errors with their context.
#[derive(Clone, Debug)]
pub enum ConfigError {
    FileNotFound { path: String },
    ReadError { path: String, source: String },
    ParseError { path: String, source: String },
    InvalidAddress { address: String },
    CertFileNotFound { path: String },
    KeyFileNotFound { path: String },
    InvalidLogLevel { level: String },
    InvalidCongestionControl { algorithm: String },
    InvalidParameter { parameter: String, value: String, message: String },
}

/// A configuration error with its text taken by value.
pub ghost enum ConfigErrorView {
    FileNotFound { path: Seq<char> },
    ReadError { path: Seq<char>, source: Seq<char> },
    ParseError { path: Seq<char>, source: Seq<char> },
    InvalidAddress { address: Seq<char> },
    CertFileNotFound { path: Seq<char> },
    KeyFileNotFound { path: Seq<char> },
    InvalidLogLevel { level: Seq<char> },
    InvalidCongestionControl { algorithm: Seq<char> },
    InvalidParameter { parameter: Seq<char>, value: Seq<char>, message: Seq<char> },
}

impl View for ConfigError {
    type V = ConfigErrorView;

    open spec fn view(&self) -> ConfigErrorView {
        match self {
            ConfigError::FileNotFound { path } => ConfigErrorView::FileNotFound { path: path@ },
            ConfigError::ReadError { path, source } => ConfigErrorView::ReadError {
                path: path@,
                source: source@,
            },
            ConfigError::ParseError { path, source } => ConfigErrorView::ParseError {
                path: path@,
                source: source@,
            },
            ConfigError::InvalidAddress { address } => ConfigErrorView::InvalidAddress {
                address: address@,
            },
            ConfigError::CertFileNotFound { path } => ConfigErrorView::CertFileNotFound {
                path: path@,
            },
            ConfigError::KeyFileNotFound { path } => ConfigErrorView::KeyFileNotFound {
                path: path@,
            },
            ConfigError::InvalidLogLevel { level } => ConfigErrorView::InvalidLogLevel {
                level: level@,
            },
            ConfigError::InvalidCongestionControl { algorithm } =>
                ConfigErrorView::InvalidCongestionControl { algorithm: algorithm@ },
            ConfigError::InvalidParameter { parameter, value, message } =>
                ConfigErrorView::InvalidParameter {
                parameter: parameter@,
                value: value@,
                message: message@,
            },
        }
    }
}

} // verus!
