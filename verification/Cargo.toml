[package]
name = "brane_auction"
version = "0.1.0"
edition = "2021"
publish = false

[dependencies]
cosmwasm-schema = "=1.5.11"
cosmwasm-std = "=1.5.11"
cw-storage-plus = "=1.2.0"
cw2 = "=1.1.2"
cw721 = "=0.18.0"
schemars = "=0.8.22"
serde = { version = "=1.0.229", default-features = false, features = ["derive"] }
sg2 = "=3.15.0"
sg721 = "=3.15.0"
sg721-base = "=3.15.0"
url = "=2.5.8"
