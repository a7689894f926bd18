[package]
name = "chain_fetcher"
version = "0.1.0"
edition = "2021"
publish = false

[dependencies]
bitcoin = "*"
kyoto-cbf = "*"
tokio = { version = "*", features = ["sync"] }
