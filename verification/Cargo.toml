[package]
name = "tuzi_switch"
version = "0.1.0"
edition = "2021"
publish = false

[dependencies]
serde = { version = "=1.0.229", features = ["derive"] }
serde_json = "=1.0.154"
uuid = { version = "=1.29.0", features = ["v4"] }
log = "=0.4.35"
toml_edit = "=0.22.27"
