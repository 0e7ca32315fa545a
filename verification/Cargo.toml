[package]
name = "gateway"
version = "0.1.0"
edition = "2021"
publish = false

[dependencies]
sha3 = "0.10"
libsecp256k1 = "0.7"
hex = "0.4"

[dev-dependencies]
rand = "0.8"
