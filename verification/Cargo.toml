[package]
name = "annotated"
version = "0.1.0"
edition = "2021"
publish = false

[dependencies]
futures = "*"
serde = "*"
serde_derive = "*"
serde_json = "*"
twitter-stream = "*"
