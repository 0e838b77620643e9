[package]
name = "blevm_prover"
version = "0.1.0"
edition = "2021"
publish = false

[dependencies]
base64 = "=0.23.1"
celestia-types = { version = "=1.3.0", default-features = false }
hex = "=0.4.3"
nmt-rs = "=0.2.5"
reqwest = { version = "=0.13.5", default-features = false, features = ["json"] }
serde = { version = "=1.0.229", features = ["derive"] }
serde_json = "=1.0.151"
sha2 = "=0.11.0"
sha3 = "=0.12.0"
sp1-verifier = "=6.8.1"
tendermint = "=0.40.4"
tendermint-proto = "=0.40.4"
thiserror = "=2.0.21"
tokio = { version = "=1.53.2", features = ["rt-multi-thread", "macros", "time"] }
