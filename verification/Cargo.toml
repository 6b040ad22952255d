[package]
name = "podforge"
version = "0.1.0"
edition = "2021"
publish = false

[dependencies]
discid = "*"
lofty = "0.22"
refinery = { version = "*", features = ["rusqlite"] }
reqwest = { version = "0.12", default-features = false, features = ["blocking", "json", "rustls-tls"] }
rusqlite = { version = "*", features = ["bundled"] }
serde = { version = "1", features = ["derive"] }
serde_json = "1"
thiserror = "*"
tokio = { version = "1", features = ["full"] }
tracing = "0.1"
tracing-appender = "0.2"
tracing-subscriber = { version = "0.3", features = ["env-filter"] }
walkdir = "2"
