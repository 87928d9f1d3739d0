[package]
name = "embedded_rpc"
version = "0.2.0"
edition = "2021"
publish = false

[dependencies]
embassy-sync = { version = "*", features = ["std"] }
