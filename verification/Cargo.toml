[package]
name = "rustable"
version = "0.1.0"
edition = "2021"
publish = false

[dependencies]
xml-rs = "*"
async-rustbus = "*"
futures = "*"
async-std = { version = "*", features = ["unstable"] }
tokio = { version = "1", features = ["sync", "rt", "macros"] }
async-channel = "*"
libc = "*"
log = "*"

[dev-dependencies]
rand = "0.8"
