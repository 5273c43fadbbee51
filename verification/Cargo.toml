[package]
name = "contract_pkg"
version = "0.1.0"
edition = "2021"
publish = false

[dependencies]
serde_json = "1"
web3 = { version = "*", default-features = false, features = ["http"] }
