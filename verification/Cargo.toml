[package]
name = "rfetch"
version = "0.1.0"
edition = "2021"
publish = false

[dependencies]
colored = "*"
serde = { version = "*", features = ["derive"] }
toml = "*"
dirs = "*"
clap = "*"
rascii_art = "*"
