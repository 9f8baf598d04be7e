[package]
name = "wasm_decoder"
version = "0.1.0"
edition = "2021"
publish = false

[dependencies]
wat = "*"
env_logger = "*"
