[package]
name = "chat_pipeline"
version = "0.1.0"
edition = "2021"
publish = false

[dependencies]
rsa = "=0.9.10"
sha2 = "=0.10.9"
rand = "=0.8.8"
argon2 = "=0.5.3"
chrono = "=0.4.45"
serde = { version = "=1.0.229", features = ["derive"] }
serde_json = "=1.0.151"
tokio = { version = "=1.53.2", features = ["macros", "rt-multi-thread", "net", "time", "sync", "signal"] }
axum = "=0.8.9"
axum-extra = { version = "=0.10.3", features = ["query"] }
