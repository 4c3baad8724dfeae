[package]
name = "piper_tts"
version = "0.1.0"
edition = "2021"
publish = false

[dependencies]
hound = "3.5"
regex = "1"
serde = { version = "1", features = ["derive"] }
serde_json = "1"
thiserror = "1"
axum = "0.7"
tokio = { version = "1", features = ["full"] }
tower-http = { version = "0.5", features = ["cors", "fs", "trace"] }
tracing = "0.1"
tracing-subscriber = { version = "0.3", features = ["env-filter"] }
rodio = { version = "0.19", default-features = false, features = ["wav"] }
ort = "=2.0.0-rc.10"
