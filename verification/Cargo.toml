[package]
name = "linux_platform"
version = "0.1.0"
edition = "2021"
publish = false

[dependencies]
lazy_static = "=1.5.1"
log = "=0.4.35"
smithay-client-toolkit = { version = "0.19", default-features = false }
users = "=0.11.0"
