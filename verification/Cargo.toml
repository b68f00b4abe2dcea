[package]
name = "authd_registry"
version = "0.1.0"
edition = "2021"
publish = false

[dependencies]
log = "*"
prettytable-rs = "*"
serde = { version = "*", features = ["derive"] }
serde_json = "*"
serde_yaml = "*"
