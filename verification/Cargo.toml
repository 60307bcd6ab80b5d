[package]
name = "host_components"
version = "0.1.0"
edition = "2021"
publish = false

[dependencies]
sanitize-filename = "0.4"
anyhow = "1"
futures = "0.3"
log = "0.4"
tokio = { version = "1", features = ["fs", "io-std", "io-util"] }
