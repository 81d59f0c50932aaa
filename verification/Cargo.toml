[package]
name = "carbonado-node"
version = "0.1.0"
edition = "2021"
publish = false

[dependencies]
anyhow = "1"
axum = "0.6"
axum-macros = "0.3"
bao = "*"
blake3 = "1"
bytes = "1"
futures-util = "0.3"
log = "0.4"
percent-encoding = "2"
secp256k1 = "*"
tower-http = { version = "0.4", features = ["cors"] }
