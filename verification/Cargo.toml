[package]
name = "writing_unicorns"
version = "0.1.0"
edition = "2021"
publish = false

[dependencies]
ropey = "=1.6.1"
regex = "=1.13.1"
serde = { version = "1", features = ["derive"] }
serde_json = "1"
toml = "0.8"
