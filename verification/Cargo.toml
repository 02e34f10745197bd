[package]
name = "creatorai"
version = "0.1.0"
edition = "2021"
publish = false

[dependencies]
serde = { version = "*", features = ["derive"] }
serde_json = "*"
uuid = { version = "*", features = ["v4"] }
time = { version = "*", features = ["formatting"] }
keyring = "*"
reqwest = { version = "*", default-features = false, features = ["blocking", "json"] }
