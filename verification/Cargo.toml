[package]
name = "gps_to_mqtt"
version = "0.1.0"
edition = "2021"
publish = false

[dependencies]
gumdrop = "*"
config = { version = "*", default-features = false, features = ["toml"] }
serialport = { version = "*", default-features = false }
paho-mqtt = { version = "*", default-features = false, features = ["bundled"] }
