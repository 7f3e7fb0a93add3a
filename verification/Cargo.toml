[package]
name = "proto-control"
version = "0.1.0"
edition = "2021"
publish = false

[dependencies]
anyhow = "1"
ctrlc = "3"
dirs = "6"
env_logger = "0.11"
iced = { version = "0.13", default-features = false, features = ["tiny-skia"] }
ksni = { version = "0.3", features = ["blocking"] }
libc = "0.2"
log = "0.4"
midir = "0.10"
png = "0.18"
serde = { version = "1", features = ["derive"] }
serde_json = "1"
serialport = { version = "4", default-features = false }
toml = "0.8"
