[package]
name = "drone_core"
version = "0.1.0"
edition = "2021"
publish = false

[dependencies]
postcard = { version = "1", features = ["use-std", "experimental-derive"] }
serde = { version = "1", features = ["derive"] }
embassy-sync = "*"
embassy-futures = "*"
embassy-time = "*"
embassy-executor = "*"
ndarray = { version = "*", default-features = false, features = ["std"] }
serialport = { version = "*", default-features = false }
