[package]
name = "eth_engine"
version = "0.1.0"
edition = "2021"
publish = false

[dependencies]
sha2 = "*"
sha3 = "*"
libsecp256k1 = "*"
hex = "*"

[dev-dependencies]
rlp = "*"
ethereum-types = "*"
