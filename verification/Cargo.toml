[package]
name = "motuman"
version = "0.1.0"
edition = "2021"
publish = false

[dependencies]
clap = { version = "4", features = ["derive"] }
midir = "*"
reqwest = { version = "*", default-features = false, features = ["blocking"] }
rosc = "*"
serde = { version = "1", features = ["derive"] }
serde_with = "*"
toml = "*"
