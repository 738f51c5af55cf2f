[package]
name = "ottx_decoder"
version = "0.1.0"
edition = "2021"
publish = false

[dependencies]
lzma-rs = "*"
serde = { version = "*", features = ["derive"] }
serde_json = "*"
