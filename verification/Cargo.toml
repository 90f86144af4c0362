[package]
name = "vault_transit"
version = "0.1.0"
edition = "2021"
publish = false

[dependencies]
base64 = "0.21"
rustls = "0.23"
serde = { version = "1", features = ["derive"] }
serde_json = "1"
ureq = { version = "3", features = ["json"] }
