[package]
name = "tower-hil"
version = "0.1.0"
edition = "2021"
publish = false

[dependencies]
postcard = { version = "=1.1.3", features = ["alloc"] }
serde = { version = "=1.0.229", features = ["derive"] }
serialport = { version = "=4.9.0", default-features = false }
toml = "=1.1.8"
