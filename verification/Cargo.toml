[package]
name = "embedded-svc"
version = "0.1.0"
edition = "2021"
publish = false

[dependencies]
heapless = "0.7"
domain = "0.6"
anyhow = "1"
serde = { version = "1", features = ["derive"] }
serde_json = "1"
embedded-io = "0.4"
enumset = "1"
log = "0.4"
