[package]
name = "devmon"
version = "0.1.0"
edition = "2021"
publish = false

[dependencies]
anyhow = "*"
log = "*"
simple_logger = "*"
tokio = { version = "*", features = ["macros", "rt-multi-thread", "time"] }
tokio-stream = "*"
udev = "*"
