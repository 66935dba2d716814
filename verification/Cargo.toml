[package]
name = "node_config"
version = "0.1.0"
edition = "2021"
publish = false

[dependencies]
qrcodegen = "=1.8.0"
uuid = "=1.29.0"
js-sys = "=0.3.107"
getrandom = { version = "=0.2.17", features = ["js"] }
base64 = "=0.22.1"
x25519-dalek = { version = "=2.0.1", features = ["static_secrets"] }
chrono = "=0.4.45"
