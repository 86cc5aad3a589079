[package]
name = "ai_gateway"
version = "0.1.0"
edition = "2021"
publish = false

[dependencies]
chrono = { version = "=0.4.45", features = ["serde"] }
uuid = { version = "=1.29.0", features = ["v4"] }
sha2 = "=0.10.9"
serde_json = "=1.0.154"
regex = "=1.13.1"
serde = { version = "=1.0.229", features = ["derive"] }
http = "=1.5.0"
tracing = "=0.1.44"
thiserror = "=2.0.21"
anyhow = "=1.0.104"
async-trait = "=0.1.92"
bytes = "=1.12.1"
