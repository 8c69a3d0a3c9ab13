[package]
name = "devbrowsers"
version = "0.1.0"
edition = "2021"
publish = false

[dependencies]
serde = { version = "1", features = ["derive"] }
serde_json = "1"
dirs = "5"
tungstenite = "0.26"
ureq = { version = "3", default-features = false }
