[package]
name = "autocompounder"
version = "0.1.0"
edition = "2021"
publish = false

[dependencies]
near-sdk = { version = "*", features = ["legacy", "unit-testing"] }
schemars = "0.8"
serde_json = "1"
