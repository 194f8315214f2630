[package]
name = "aot_handler"
version = "0.1.0"
edition = "2021"
publish = false

[dependencies]
alloy-primitives = { version = "1", default-features = false, features = ["std"] }
libloading = "0.8"
