[package]
name = "bitmaskd"
version = "0.1.0"
edition = "2021"
publish = false

[dependencies]
secp256k1 = "*"
bitcoin = "0.29"
bp-core = "0.9"
rand = "*"
