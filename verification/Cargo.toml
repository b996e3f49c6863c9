[package]
name = "qubwic"
version = "0.1.0"
edition = "2021"
publish = false

[dependencies]
anyhow = "1"
clap = { version = "4", features = ["derive", "env"] }
ctrlc = "3"
env_logger = "0.11"
log = "0.4"
mio = { version = "1", features = ["net", "os-poll"] }
num_cpus = "1"
quiche = "*"
ring = "0.17"
serde = { version = "1", features = ["derive"] }
signal-hook = "0.3"
signal-hook-mio = { version = "0.2", features = ["support-v1_0"] }
thiserror = "1"
toml = "0.8"
