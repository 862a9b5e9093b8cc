[package]
name = "trustboost"
version = "0.1.0"
edition = "2021"
publish = false

[dependencies]
bech32 = "=0.9.1"
cosmwasm-crypto = "=1.5.11"
cosmwasm-std = { version = "=1.5.11", features = ["ibc3"] }
cw-storage-plus = "=1.2.0"
cw2 = "=1.1.2"
ripemd = "=0.1.3"
serde = { version = "1", features = ["derive"] }
sha2 = "=0.10.9"

[dev-dependencies]
k256 = "0.13"
