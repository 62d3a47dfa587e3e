[package]
name = "ina4230"
version = "0.2.0"
edition = "2021"
publish = false

[dependencies]
device-driver = { version = "2.1", default-features = false }
embedded-hal-async = "1"
embedded-sensors-hal-async = "*"

[dev-dependencies]
embedded-hal = "1"
embedded-hal-mock = { version = "*", default-features = false, features = ["eh1"] }
