[package]
name = "transmuta"
version = "0.1.0"
edition = "2021"
publish = false

[dependencies]
rand = "=0.8.8"
chrono = "=0.4.45"
csv = "=1.4.0"
serde = { version = "=1.0.229", features = ["derive"] }
serde_json = { version = "=1.0.154", features = ["preserve_order", "float_roundtrip"] }
arrow = { version = "=60.0.0", default-features = false }
parquet = { version = "=60.0.0", default-features = false, features = ["arrow"] }
calamine = "=0.22.1"
clap = { version = "=4.6.7", features = ["derive"] }
env_logger = "=0.11.11"
indicatif = "=0.17.11"
log = "=0.4.34"
num_cpus = "=1.17.0"
thiserror = "=1.0.69"
anyhow = "=1.0.104"
