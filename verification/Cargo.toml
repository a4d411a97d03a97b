[package]
name = "solana-quadratic-funding"
version = "0.1.0"
edition = "2021"
publish = false

[dependencies]
anchor-lang = { version = "0.32", features = ["init-if-needed"] }
anyhow = "1"
clap = { version = "4", features = ["derive"] }
