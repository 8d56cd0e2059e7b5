[package]
name = "threshold_signature"
version = "0.1.0"
edition = "2021"
publish = false

[dependencies]
curve25519-dalek = "4"
num-bigint = "0.4"
num-traits = "0.2"
rand = "0.9"
serde = { version = "1", features = ["derive"] }
sha2 = "0.10"
