[package]
name = "stream_engine"
version = "0.1.0"
edition = "2021"
publish = false

[dependencies]
chrono = "0.4"
libc = "0.2"
libloading = "0.8"
serde = { version = "1", features = ["derive"] }
