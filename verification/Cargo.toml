[package]
name = "nanopm"
version = "0.2.0"
edition = "2021"
publish = false

[dependencies]
fs_extra = "*"
chrono = "*"
serde = { version = "*", features = ["derive"] }
toml = "*"
walkdir = "*"
