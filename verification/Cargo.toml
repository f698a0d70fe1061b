[package]
name = "habitat_swim"
version = "0.1.0"
edition = "2021"
publish = false

[dependencies]
rand = "=0.4.6"
time = "=0.1.45"
uuid = { version = "=0.5.1", features = ["v4"] }

[dev-dependencies]
protobuf = "=2.28.0"
