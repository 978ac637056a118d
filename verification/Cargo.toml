[package]
name = "webrender"
version = "0.1.0"
edition = "2021"
publish = false

[dependencies]
plane-split = "*"

[dev-dependencies]
euclid = "0.22"
