[package]
name = "tempesta"
version = "0.1.0"
edition = "2021"
publish = false

[dependencies]
dirs = "=7.0.0"
serde = { version = "=1.0.229", features = ["derive"] }
toml = { version = "=0.8.23", features = ["preserve_order"] }
webbrowser = "=1.2.5"

[dev-dependencies]
regex = "=1.13.1"
