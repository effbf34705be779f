[package]
name = "mint_common"
version = "0.1.0"
edition = "2021"
publish = false

[dependencies]
bincode = "=1.3.3"
fedimint-core = { version = "0.3", default-features = false }
fedimint-tbs = "=0.2.2"
secp256k1-zkp = "=0.7.0"
serde = { version = "1", features = ["derive"] }
thiserror = "1"
