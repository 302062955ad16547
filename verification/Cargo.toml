[package]
name = "swap_core"
version = "0.1.0"
edition = "2021"
publish = false

[dependencies]
curve25519-dalek = "=3.2.1"
tiny-keccak = { version = "=2.0.2", features = ["keccak"] }
uuid = { version = "1", features = ["v4"] }
