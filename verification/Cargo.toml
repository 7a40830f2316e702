[package]
name = "voltguard"
version = "0.1.0"
edition = "2021"
publish = false

[dependencies]
uuid = { version = "1", features = ["v4", "serde"] }
serde_json = "1"
serde = { version = "1", features = ["derive"] }
anyhow = "1"
thiserror = "1"
async-trait = "0.1"
chrono = { version = "0.4", features = ["serde"] }
clap = { version = "4", features = ["derive"] }
dirs = "5"
figment = { version = "0.10", features = ["toml", "env"] }
futures = "0.3"
futures-util = "0.3"
nix = { version = "0.29", features = ["socket", "user", "fs"] }
schemars = "0.8"
tokio = { version = "1", features = ["full"] }
tracing = "0.1"
tracing-subscriber = { version = "0.3", features = ["env-filter"] }
