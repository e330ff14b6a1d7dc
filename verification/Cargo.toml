[package]
name = "dezoom"
version = "0.1.0"
edition = "2021"
publish = false

[dependencies]
url = "2"
reqwest = { version = "*", default-features = false }
tokio = { version = "*", features = ["fs"] }
