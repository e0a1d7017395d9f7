[package]
name = "breadx_blocking"
version = "0.1.0"
edition = "2021"
publish = false

[dependencies]
breadx = { version = "=1.2.1", features = ["async"] }
blocking = "=1.7.0"
async-lock = "=2.8.0"
concurrent-queue = "=1.2.4"
