[package]
name = "muse"
version = "0.1.0"
edition = "2021"
publish = false

[dependencies]
clap = { version = "*", features = ["derive"] }
colored = "*"
home = "*"
lofty = "*"
rand = "*"
rodio = "*"
serde = { version = "*", features = ["derive"] }
serde_json = "*"
toml = "*"
