[package]
name = "int_tradebot"
version = "0.1.0"
edition = "2021"
publish = false

[dependencies]
rust_decimal = "1"
serde_json = "1"
serde = { version = "1", features = ["derive"] }
flate2 = "1"
chrono = "0.4"
rand = "0.7"
crossbeam-channel = "0.5"
ws = "0.9"
reqwest = { version = "0.11", default-features = false, features = ["blocking"] }
env_logger = "0.8"
log = "0.4"
