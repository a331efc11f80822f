[package]
name = "ledger"
version = "0.1.0"
edition = "2021"
publish = false

[dependencies]
blake2 = "0.10"
ed25519-dalek = { version = "2", features = ["rand_core"] }
num-bigint = "0.4"
rpds = { version = "1", features = ["serde"] }
serde = { version = "1", features = ["derive", "rc"] }
serde_json = "1"
strum = { version = "*", features = ["derive"] }
thiserror = "2"
tracing = "0.1"

[dev-dependencies]
