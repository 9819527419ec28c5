[package]
name = "zero_prover"
version = "0.1.0"
edition = "2021"
publish = false

[dependencies]
proof_gen = "=0.4.0"
evm_arithmetization = "=0.4.0"
ethereum-types = "=0.14.1"
keccak-hash = "=0.10.0"
paladin-core = "=0.4.3"
anyhow = "1"
clap = { version = "4", features = ["derive", "env"] }
serde = { version = "1", features = ["derive"] }
serde_json = "1"
tokio = { version = "1", features = ["rt-multi-thread", "macros", "sync"] }
futures = "0.3"
tracing = "0.1"
num-traits = "0.2"
dotenvy = "0.15"
