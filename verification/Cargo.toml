[package]
name = "secop"
version = "0.1.0"
edition = "2021"
publish = false

[dependencies]
serde_json = "1"
base64 = "0.13"
memchr = "2"
url = "2"
crossbeam-channel = "0.5"
toml = "0.5"
serde = { version = "1", features = ["derive"] }
log = "0.4"
clap = "2"
signal-hook = "0.3"
parking_lot = "0.12"
