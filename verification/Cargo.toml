[package]
name = "bundler"
version = "0.1.0"
edition = "2021"
publish = false

[dependencies]
hex = "=0.4.3"
rand = "=0.10.3"
serde_json = "=1.0.151"
alloy = { version = "=2.5.0", default-features = false, features = ["consensus", "network", "providers", "provider-http", "reqwest", "rpc-types", "signer-local"] }
tokio = { version = "=1.53.2", default-features = false, features = ["rt-multi-thread", "macros"] }
futures = { version = "=0.3.34", default-features = false, features = ["std"] }
