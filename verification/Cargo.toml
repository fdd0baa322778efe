[package]
name = "feeder_core"
version = "0.1.0"
edition = "2021"
publish = false

[dependencies]
anyhow = "1"
csv = "1"
image = "=0.25.10"
ort = { version = "=2.0.0-rc.13", default-features = false, features = ["std"] }
serde = { version = "1", features = ["derive"] }
tracing = "0.1"
tracing-subscriber = "0.3"
walkdir = "2"

[dev-dependencies]
tempfile = "3"
