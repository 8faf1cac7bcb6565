[package]
name = "auth_core"
version = "0.1.0"
edition = "2021"
publish = false

[dependencies]
hmac = "0.12"
sha2 = "0.10"
pbkdf2 = "0.12"
subtle = "2"
getrandom = "0.2"
rocket = { version = "0.5", features = ["json"] }
rocket_okapi = "0.8"
okapi = "0.7"
schemars = "0.8"
serde = { version = "1", features = ["derive"] }
validator = { version = "0.16", features = ["derive"] }
diesel = { version = "2", features = ["postgres"] }
