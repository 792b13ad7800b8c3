[package]
name = "service_notes"
version = "0.1.0"
edition = "2021"
publish = false

[dependencies]
uuid = "1"
time = "0.3"
anyhow = "1"
tokio = { version = "1", features = ["rt", "sync"] }
tokio-stream = "0.1"
tokio-postgres = { version = "0.7", features = ["with-uuid-1", "with-time-0_3"] }
deadpool-postgres = "0.14"
tonic = { version = "0.12", default-features = false }
sqlx = { version = "0.8", default-features = false }
