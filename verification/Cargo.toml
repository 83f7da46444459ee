[package]
name = "rustutil"
version = "0.1.0"
edition = "2021"
publish = false

[dependencies]
chrono = "0.4"
log = "0.4"
env_logger = "0.11"
flate2 = "1"
