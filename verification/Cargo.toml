[package]
name = "proof_of_history"
version = "0.1.0"
edition = "2021"
publish = false

[dependencies]
digest = "0.10"
rayon = "1"
sha2 = "0.10"
sha3 = "0.10"
