[package]
name = "ipr"
version = "0.1.0"
edition = "2021"
publish = false

[dependencies]
cosmwasm-std = "=0.16.7"
cosmwasm-bignumber = "=2.2.0"
cw-storage-plus = "=0.9.2"
cw2 = "=0.9.2"
cw20 = "=0.9.1"
terra-cosmwasm = "=2.2.0"
schemars = "0.8"
serde = { version = "1", features = ["derive"] }
thiserror = "1"
