[package]
name = "heartwood"
version = "0.1.0"
edition = "2021"
publish = false

[dependencies]
hmac-sha256 = "=1.1.15"
spin = "=0.9.9"
x86_64 = { version = "=0.15.5", default-features = false, features = ["instructions"] }
pic8259 = { version = "=0.11.0", default-features = false }
