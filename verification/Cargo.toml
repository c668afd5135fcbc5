[package]
name = "saitekswitch"
version = "0.1.0"
edition = "2021"
publish = false

[dependencies]
xml-rs = "=1.0.0"
hidapi = { version = "=2.6.7", default-features = false, features = ["linux-native-basic-udev"] }
