[package]
name = "non_empty_vec"
version = "0.2.3"
edition = "2021"
publish = false

[dependencies]
serde = "1"

[dev-dependencies]
serde_json = "1"
