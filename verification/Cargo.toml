[package]
name = "amalgam"
version = "0.1.0"
edition = "2021"
publish = false

[dependencies]
chrono = { version = "0.4", default-features = false, features = ["std"] }
clap = "2"
config = { version = "0.10", default-features = false }
lazy_static = "1"
netaddr2 = "*"
regex = "1"
serde_json = "1"
