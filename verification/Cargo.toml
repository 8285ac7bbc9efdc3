[package]
name = "rshttpd"
version = "0.1.0"
edition = "2021"
publish = false

[dependencies]
rustc-serialize = "0.3"
log = "0.3"
env_logger = "0.3"
time = "0.1"

[dev-dependencies]
regex = "0.1"
