//! QUIC connection bookkeeping.
pub mod client;
pub mod handler;
pub mod manager;

pub use manager::ClientMap;
