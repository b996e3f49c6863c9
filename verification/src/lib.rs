//! QuBWic: the configuration, addressing, connection bookkeeping and request
//! routing rules of a QUIC/HTTP3-only web server.
pub mod numeric;
pub mod net;
pub mod config;
pub mod connection;
pub mod http3;
pub mod tls;
pub mod logging;
