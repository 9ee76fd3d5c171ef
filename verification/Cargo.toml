[package]
name = "vertex"
version = "0.1.0"
edition = "2021"
publish = false

[dependencies]
anyhow = "1"
clap = { version = "4", features = ["derive"] }
flate2 = "1"
hex = "0.4"
tokio = { version = "1", features = ["macros", "rt-multi-thread"] }
typed-builder = "*"
