[package]
name = "simd_tokenizer"
version = "0.1.2"
edition = "2021"
publish = false

[dependencies]
tiktoken-rs = "*"
thiserror = "2"
