[package]
name = "preview_core"
version = "0.1.0"
edition = "2021"
publish = false

[dependencies]
anyhow = "=1.0.104"
chrono = "=0.4.45"
crossbeam-channel = "=0.5.17"
dirs = "=7.0.0"
image = "=0.25.10"
pathdiff = "=0.2.3"
rusqlite = { version = "=0.40.2", features = ["bundled"] }
serde = { version = "=1.0.229", features = ["derive"] }
serde_json = "=1.0.151"
symphonia = "=0.5.5"
uuid = { version = "=1.27.0", features = ["v4"] }
