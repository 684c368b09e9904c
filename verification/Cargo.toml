[package]
name = "aleo_pool"
version = "0.1.0"
edition = "2021"
publish = false

[dependencies]
serde_json = "1"
anyhow = "1"
clap = { version = "4", features = ["derive"] }
deadpool-postgres = "0.10"
dotenv = "0.15"
futures-util = "0.3"
jsonrpsee = { version = "0.16", features = ["server", "ws-client"] }
libc = "0.2"
once_cell = "1"
parking_lot = "0.12"
rand = "0.8"
tokio = { version = "1", features = ["full"] }
tokio-postgres = "0.7"
tracing = "0.1"
tracing-subscriber = { version = "0.3", features = ["env-filter"] }
winapi = { version = "0.3", features = ["sysinfoapi"] }
