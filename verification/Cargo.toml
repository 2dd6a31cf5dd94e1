[package]
name = "bwt"
version = "0.1.0"
edition = "2021"
publish = false

[dependencies]
bitcoin = "*"
miniscript = "*"
bitcoincore-rpc = "*"
serde = { version = "*", features = ["derive"] }
serde_json = "*"
jsonrpc-tcp-server = "*"
signal-hook = "*"
bitcoin_hashes = "*"
