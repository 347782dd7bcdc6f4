[package]
name = "borui"
version = "0.1.0"
edition = "2021"
publish = false

[dependencies]
tokio = { version = "=1.53.2", features = ["rt-multi-thread", "sync", "time", "macros", "signal"] }
url = "=2.5.8"
handlebars = "=6.4.4"
serde_json = "=1.0.151"
serde = { version = "=1.0.229", features = ["derive"] }
axum = { version = "=0.8.9", features = ["ws"] }
reqwest = { version = "=0.13.5", default-features = false }
chrono = { version = "=0.4.45", default-features = false, features = ["clock"] }
anyhow = "=1.0.104"
bore-cli = "=0.6.0"
futures-util = "=0.3.34"
