[package]
name = "trollup_sequencer"
version = "0.1.0"
edition = "2021"
publish = false

[dependencies]
anyhow = "=1.0.104"
babyjubjub-rs = "=0.0.11"
ethers-core = "=2.0.14"
num-bigint = "=0.4.8"
ruint = "=1.21.1"
serde = { version = "=1.0.229", features = ["derive"] }
serde_json = "=1.0.154"
tokio = { version = "=1.54.1", features = ["io-util", "macros", "net", "rt-multi-thread", "sync"] }
