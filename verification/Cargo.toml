[package]
name = "tarantool"
version = "0.1.0"
edition = "2021"
publish = false

[dependencies]
serde = { version = "1", features = ["derive"] }
serde_bytes = "0.11"
rmp-serde = "1"
time = "0.3"
