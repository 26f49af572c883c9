[package]
name = "rusty_relay"
version = "0.1.0"
edition = "2021"
publish = false

[dependencies]
nanoid = "*"
axum = { version = "*", features = ["ws"] }
axum-extra = { version = "*", features = ["cookie"] }
tokio = { version = "*", features = ["full"] }
tokio-stream = "*"
tokio-tungstenite = "*"
futures-util = "*"
reqwest = { version = "*", default-features = false }
serde = { version = "*", features = ["derive"] }
serde_json = "*"
clap = { version = "*", features = ["derive", "env"] }
anyhow = "*"
thiserror = "*"
tracing = "*"
tracing-subscriber = "*"
