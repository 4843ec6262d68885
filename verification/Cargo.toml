[package]
name = "inspiration"
version = "0.1.0"
edition = "2021"
publish = false

[dependencies]
futures = "0.1"
hyper = "0.11"
regex = "1"
serde = "1"
serde_derive = "1"
serde_json = "1"
tokio-core = "0.1"
