[package]
name = "rust_fuzzer"
version = "0.1.0"
edition = "2021"
publish = false

[dependencies]
sha2 = "*"
clap = { version = "*", features = ["derive"] }
