[package]
name = "vialo"
version = "0.1.0"
edition = "2021"
publish = false

[dependencies]
mac_address = "=1.2.1"
uuid = { version = "=1.29.0", features = ["serde"] }
rand = "=0.9.5"
hex = "=0.4.3"
pulldown-cmark = { version = "=0.13.6", default-features = false, features = ["html"] }
ammonia = "=4.2.4"
serde = { version = "=1.0.229", features = ["derive"] }
serde_json = "=1.0.154"
serde_path_to_error = "=0.1.20"
toml = "=0.8.23"
anyhow = "=1.0.104"
chrono = "=0.4.45"
tracing = "=0.1.44"
tokio = { version = "=1.54.1", features = ["rt-multi-thread", "macros", "net", "sync", "time", "signal"] }
axum = "=0.8.9"
sqlx = { version = "=0.8.6", default-features = false, features = ["postgres", "runtime-tokio", "uuid", "chrono", "ipnetwork", "mac_address"] }
governor = "=0.10.4"
dashmap = "=6.2.1"
