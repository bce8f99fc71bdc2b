[package]
name = "jxpoolminer"
version = "0.1.0"
edition = "2021"
publish = false

[dependencies]
sha2 = "*"
sha3 = "*"
hex = "*"
chrono = "*"
serde = { version = "*", features = ["derive"] }
toml = "*"
dirs = "*"
tokio = { version = "*", features = ["full"] }
sysinfo = "*"
tracing = "*"
tracing-subscriber = "*"
