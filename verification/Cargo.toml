[package]
name = "async_read_length_limit"
version = "0.1.0"
edition = "2021"
publish = false

[dependencies]
futures-lite = "*"
pin-project-lite = "*"

[dev-dependencies]
fastrand = "*"
