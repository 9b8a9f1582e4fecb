[package]
name = "drdump"
version = "0.1.0"
edition = "2021"
publish = false

[dependencies]
btf-rs = "=2.0.0"
anyhow = "=1.0.104"
clap = { version = "=4.6.7", features = ["derive"] }
