[package]
name = "miden_bridge"
version = "0.1.0"
edition = "2021"
publish = false

[dependencies]
miden-assembly = "=0.6.1"
miden-core = "=0.6.1"
miden-processor = "=0.6.1"
miden-prover = "=0.6.0"
miden-verifier = "=0.6.0"
