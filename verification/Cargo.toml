[package]
name = "alta_build"
version = "0.1.0"
edition = "2021"
publish = false

[dependencies]
crossbeam-deque = "*"
clap = { version = "*", features = ["derive"] }
path-clean = "*"
serde = { version = "*", features = ["derive"] }
toml = "*"
