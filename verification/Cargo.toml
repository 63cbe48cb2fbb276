[package]
name = "opuza-monero-client"
version = "0.1.0"
edition = "2021"
publish = false

[dependencies]
anyhow = "1"
hex = "=0.4.3"
jsonrpc-core = "=18.0.0"
monero-rpc = "=0.5.2"
num-format = "=0.4.4"
openssl = "=0.10.81"
serde = { version = "=1.0.229", features = ["derive"] }
serde_json = "=1.0.154"
tokio = { version = "=1.54.1", features = ["rt", "time", "macros"] }
