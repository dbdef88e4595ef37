[package]
name = "file_channel"
version = "0.1.0"
edition = "2021"
publish = false

[dependencies]
bytes = "1"
futures = "0.3"
libc = "0.2"
pin-project = "1"
slab = "0.4"
tokio = { version = "1", features = ["rt"] }
tempfile = "3"
