[package]
name = "twitch_api2"
version = "0.1.0"
edition = "2021"
publish = false

[dependencies]
http = "1"
serde = { version = "1", features = ["derive"] }
serde_json = "1"
twitch_oauth2 = { version = "*", default-features = false }
typed-builder = "*"
