[package]
name = "ckb-sdk"
version = "0.1.0"
edition = "2021"
publish = false

[dependencies]
ckb-chain-spec = "*"
ckb-jsonrpc-types = "*"
ckb-types = "*"
lru = "0.7"
parking_lot = "0.12"
