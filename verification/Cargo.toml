[package]
name = "keccak_hash"
version = "0.1.0"
edition = "2021"
publish = false

[dependencies]
hex = "=0.4.3"
wasm-bindgen = "=0.2.129"

[dev-dependencies]
keccak = "*"
sha3 = "=0.12.0"
