[package]
name = "wd_passport"
version = "0.1.0"
edition = "2021"
publish = false

[dependencies]
anyhow = "=1.0.104"
base64 = "=0.21.7"
chrono = "=0.4.45"
lazy_static = "=1.5.1"
num-bigint-dig = { version = "=0.8.6", features = ["prime"] }
num-traits = "=0.2.19"
rand = "=0.8.8"
rsa = { version = "=0.8.2", features = ["sha2"] }
rust-crypto = "=0.2.36"
