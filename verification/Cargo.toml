[package]
name = "api_for_cursor"
version = "0.2.0"
edition = "2021"
publish = false

[dependencies]
dirs = "6"
keyring = "4"
keyring-core = "1"
serde = { version = "1", features = ["derive"] }
serde_json = "1"
uuid = { version = "1", features = ["v4"] }
winreg = "0.55"
