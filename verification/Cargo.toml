[package]
name = "log_ingest"
version = "0.1.0"
edition = "2021"
publish = false

[dependencies]
chrono = "*"
rand = "*"
serde = { version = "*", features = ["derive"] }
serde_yaml = "*"
tokio = { version = "*", features = ["rt-multi-thread", "macros", "time", "net"] }

[dev-dependencies]
serde_json = "*"
