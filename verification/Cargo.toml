[package]
name = "snapctl"
version = "0.1.0"
edition = "2021"
publish = false

[dependencies]
katcp = "*"
base64 = "0.13"
tokio = { version = "1", features = ["full"] }
clap = { version = "3", features = ["derive"] }
tracing = "0.1"
tracing-subscriber = { version = "0.3", features = ["env-filter", "fmt"] }
