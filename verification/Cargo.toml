[package]
name = "mix_server"
version = "0.1.0"
edition = "2021"
publish = false

[dependencies]
sled = "=0.34.7"
bloom = "=0.3.2"
rand = "=0.4.6"
ecdh_wrapper = "=0.0.9"
crossbeam-channel = "=0.5.17"
crossbeam-utils = "=0.8.23"
toml = "=0.9.8"
serde = { version = "=1.0.229", features = ["derive"] }
clap = "=4.6.7"

[dev-dependencies]
tempfile = "=3.27.0"
