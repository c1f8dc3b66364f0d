[package]
name = "rpc_fanout"
version = "0.1.0"
edition = "2021"
publish = false

[dependencies]
alloy = { version = "*", default-features = false, features = ["std", "providers", "rpc-types-mev", "reqwest"] }
async-trait = "*"
futures = "*"
serde_json = "*"
