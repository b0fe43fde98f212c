[package]
name = "apifs"
version = "0.1.0"
edition = "2021"
publish = false

[dependencies]
actix = { version = "0.7", default-features = false }
env_logger = "0.6"
failure = "0.1"
fuse = "0.3"
futures = "0.1"
libc = "0.2"
log = "0.4"
reqwest = { version = "0.9", default-features = false }
serde = { version = "1", features = ["derive"] }
serde_json = "1"
serde_yaml = "0.8"
time = "0.1"
try_future = "*"
