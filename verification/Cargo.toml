[package]
name = "pictropy"
version = "0.1.0"
edition = "2021"
publish = false

[dependencies]
image = "*"
webp = "*"
log = "*"
env_logger = "*"
prettytable-rs = "*"
