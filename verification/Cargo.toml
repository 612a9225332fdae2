[package]
name = "conuds"
version = "0.1.0"
edition = "2021"
publish = false

[dependencies]
automotive_diag = "=0.1.29"
ecu_diagnostics = { version = "=0.107.5", default-features = false, features = ["socketcan"] }
tokio = { version = "=1.53.2", features = ["rt-multi-thread", "sync", "time", "macros"] }
argh = "=0.1.19"
serde = { version = "=1.0.229", features = ["derive"] }
serde_yaml = "=0.9.34"
anyhow = "=1.0.104"

[dev-dependencies]
crc = "=3.4.0"
