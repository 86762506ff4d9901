[package]
name = "keccak-cache"
version = "0.1.0"
edition = "2021"
publish = false

[dependencies]
fixed-cache = { version = "=0.1.11", features = ["stats"] }
rapidhash = "=4.5.1"
tiny-keccak = { version = "=2.0.2", features = ["keccak"] }
