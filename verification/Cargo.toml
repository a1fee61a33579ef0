[package]
name = "sys_metrics"
version = "0.1.0"
edition = "2021"
publish = false

[dependencies]
libc = "0.2"
serde = { version = "1", features = ["derive"] }
