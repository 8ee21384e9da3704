[package]
name = "load_bank"
version = "0.1.0"
edition = "2021"
publish = false

[dependencies]
sha2 = "*"
serialport = { version = "*", default-features = false }
