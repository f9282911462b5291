[package]
name = "esgi_bot"
version = "0.1.0"
edition = "2021"
publish = false

[dependencies]
anyhow = "1"
base64 = "0.21"
chrono = "0.4"
reqwest = "0.11"
serde_json = "1"
serenity = { version = "0.11", default-features = false, features = ["client", "gateway", "rustls_backend", "model"] }
shuttle-runtime = "0.27"
shuttle-secrets = "0.27"
shuttle-serenity = "0.27"
tokio = "1"
tracing = "0.1"
