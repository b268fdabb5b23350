[package]
name = "udi"
version = "0.1.0"
edition = "2021"
publish = false

[dependencies]
mio = { version = "*", default-features = false, features = ["os-poll", "os-ext"] }
users = "*"
downcast-rs = "*"

[dev-dependencies]
ciborium = "*"
