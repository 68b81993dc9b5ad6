[package]
name = "polymarket_tracker"
version = "0.1.0"
edition = "2021"
publish = false

[dependencies]
alloy = { version = "1", default-features = false, features = ["signer-local"] }
anyhow = "1"
chrono = { version = "0.4", default-features = false, features = ["now", "std"] }
crossterm = "0.27"
futures-util = { version = "0.3", default-features = false, features = ["sink", "std"] }
parking_lot = "0.12"
ratatui = { version = "0.26", default-features = false, features = ["crossterm"] }
rust_decimal = { version = "1", default-features = false, features = ["std"] }
serde = { version = "1", features = ["derive"] }
serde_json = "1"
tokio = { version = "1", default-features = false, features = ["macros", "rt-multi-thread", "sync", "time"] }
tokio-tungstenite = { version = "0.24", features = ["rustls-tls-webpki-roots"] }
toml = { version = "0.8", default-features = false, features = ["parse"] }
tracing = { version = "0.1", default-features = false, features = ["std"] }
