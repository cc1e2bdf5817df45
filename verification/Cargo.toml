[package]
name = "coresplitter"
version = "0.1.0"
edition = "2021"
publish = false

[dependencies]
bytes = "1"
hex = "0.4"
sha2 = "0.10"
rand = "0.8"
anyhow = "1"
tokio = { version = "1", features = ["full"] }
tokio-serial = "5"
sqlx = { version = "0.8", default-features = false, features = ["sqlite", "runtime-tokio"] }
clap = { version = "4", features = ["derive", "env"] }
serde = { version = "1", features = ["derive"] }
serde_json = "1"
chrono = "0.4"
tracing = "0.1"
tracing-subscriber = { version = "0.3", features = ["env-filter", "json"] }
