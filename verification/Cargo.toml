[package]
name = "dtls"
version = "0.1.0"
edition = "2021"
publish = false

[dependencies]
bincode = "1.3"
hmac = "0.12"
sha2 = "0.10"
async-trait = "0.1"
tokio = { version = "1", features = ["sync"] }
