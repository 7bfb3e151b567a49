[package]
name = "doomba"
version = "0.1.0"
edition = "2021"
publish = false

[dependencies]
paho-mqtt = "*"
thiserror = "*"

[dev-dependencies]
serde_json = "*"
