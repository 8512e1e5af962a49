[package]
name = "http_serde"
version = "0.1.0"
edition = "2021"
publish = false

[dependencies]
http = "1"
serde = "1"

[dev-dependencies]
serde_json = "1"
serde_yaml = "0.8"
serde_cbor = "0.11"
bincode = "1.3"
