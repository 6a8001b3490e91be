[package]
name = "treesync"
version = "0.1.0"
edition = "2021"
publish = false

[dependencies]
crossbeam = "0.8"
uuid = { version = "1", features = ["v4"] }
rsa = "0.9"
serde = { version = "1", features = ["derive"] }
native-tls = "0.2"

[dev-dependencies]
rand = "0.8"
