[package]
name = "tier"
version = "0.1.0"
edition = "2021"
publish = false

[dependencies]
cosmwasm-std = { version = "=1.5.11", features = ["staking"] }
sei-cosmwasm = "=0.4.15"
cw721 = "=0.18.0"
schemars = "=0.8.22"
serde = { version = "=1.0.229", features = ["derive"] }
