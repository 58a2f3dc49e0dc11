[package]
name = "webusb"
version = "0.6.0"
edition = "2021"
publish = false

[dependencies]
async-channel = "=2.5.0"
futures-lite = "=2.6.1"
nusb = { version = "=0.2.9", features = ["smol"] }
serde = { version = "=1.0.229", features = ["derive"] }
serde_json = "=1.0.154"
