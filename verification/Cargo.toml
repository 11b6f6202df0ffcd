[package]
name = "udp-over-tcp"
version = "0.1.0"
edition = "2021"
publish = false

[dependencies]
eyre = "0.6"
lexopt = "0.3"
tokio = { version = "1", default-features = false, features = ["net", "io-util", "time", "macros", "rt"] }
tracing = "0.1"
tracing-subscriber = { version = "0.3", features = ["env-filter"] }
