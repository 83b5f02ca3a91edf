[package]
name = "servo_bus"
version = "0.1.0"
edition = "2021"
publish = false

[dependencies]
dynamixel_sdk = "*"
glob = "*"
serde = { version = "*", features = ["derive"] }
