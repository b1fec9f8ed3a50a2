[package]
name = "broadside"
version = "0.1.0"
edition = "2021"
publish = false

[dependencies]
rand = "=0.10.3"
sha2 = "=0.11.0"
hex = "=0.4.3"
scraper = "=0.27.0"
regex = "=1.13.1"
serde = { version = "=1.0.229", features = ["derive"] }
serde_json = "=1.0.151"
bincode = "1"
flate2 = "=1.1.10"
log = "=0.4.34"
env_logger = "=0.11.11"
cgmath = "=0.18.0"
reqwest = { version = "=0.13.5", default-features = false, features = ["blocking"] }
