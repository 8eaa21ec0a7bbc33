[package]
name = "skyproxy"
version = "0.1.0"
edition = "2021"
publish = false

[dependencies]
async-trait = "0.1"
chrono = "0.4"
s3s = "0.11"
time = "0.3"
tokio = { version = "1", features = ["rt", "macros"] }
tracing = "0.1"
