[package]
name = "apex_backend"
version = "0.1.0"
edition = "2021"
publish = false

[dependencies]
anyhow = "1"
axum = "0.8"
base64 = "0.22"
bcs = "0.1"
bech32 = "0.11"
chrono = "0.4"
dotenvy = "0.15"
reqwest = { version = "0.12", default-features = false, features = ["json"] }
serde = { version = "1", features = ["derive"] }
serde_json = "1"
sqlx = { version = "0.8", default-features = false, features = ["runtime-tokio", "postgres", "json", "derive", "macros", "migrate"] }
sui-crypto = { version = "*", features = ["ed25519"] }
sui-sdk-types = { version = "*", features = ["serde"] }
sui-transaction-builder = "*"
thiserror = "2"
tokio = { version = "1", features = ["macros", "rt-multi-thread", "net", "time", "sync"] }
tower-http = { version = "0.6", features = ["cors", "trace"] }
tracing = "0.1"
tracing-subscriber = { version = "0.3", features = ["env-filter"] }
