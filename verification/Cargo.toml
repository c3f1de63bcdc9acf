[package]
name = "ricat"
version = "0.4.1"
edition = "2021"
publish = false

[dependencies]
base64 = "0.22"
clap = { version = "4", features = ["derive"] }
crossterm = "0.27"
dirs = "5"
memmap2 = "0.9"
regex = "1"
serde = { version = "1", features = ["derive"] }
thiserror = "1"
toml = "0.8"
