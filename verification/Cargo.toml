[package]
name = "rusty-pi"
version = "0.1.0"
edition = "2021"
publish = false

[dependencies]
regex = "1"
unicode-width = "*"
unicode-normalization = "*"
similar = "*"
serde = { version = "1", features = ["derive"] }
serde_json = "1"
base64 = "*"
sparcli = "*"
