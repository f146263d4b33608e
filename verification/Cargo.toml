[package]
name = "miracle_core"
version = "0.1.0"
edition = "2021"
publish = false

[dependencies]
jiff = { version = "0.2", features = ["tzdb-bundle-always"] }
uniffi = "*"
