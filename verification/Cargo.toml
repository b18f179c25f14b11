[package]
name = "filecrab"
version = "0.1.0"
edition = "2021"
publish = false

[dependencies]
age = "*"
chrono = "*"
hex = "*"
memorable-wordlist = "*"
rand = "*"
serde = { version = "*", features = ["derive"] }
toml = "*"
