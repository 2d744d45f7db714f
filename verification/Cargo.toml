[package]
name = "file_logger"
version = "0.1.0"
edition = "2021"
publish = false

[dependencies]
log = "0.3"
nom = "1.2"
regex = "0.1"
time = "0.1"
toml = { version = "0.1", default-features = false }
