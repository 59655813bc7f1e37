[package]
name = "hci_bildung"
version = "0.1.0"
edition = "2021"
publish = false

[dependencies]
base64 = "=0.13.1"
chrono = "=0.4.45"
rand = "=0.8.8"
rust-crypto = "=0.2.36"
serde = { version = "=1.0.229", features = ["derive"] }
serde_json = "=1.0.151"
