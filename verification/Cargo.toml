[package]
name = "api_proxy"
version = "0.1.0"
edition = "2021"
publish = false

[dependencies]
bytes = "1"
reqwest = "0.12"
tokio = { version = "1", features = ["full"] }
warp = "0.3"
