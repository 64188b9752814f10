[package]
name = "notes2md"
version = "0.1.0"
edition = "2021"
publish = false

[dependencies]
clap = { version = "3", features = ["derive"] }
serde_json = "1"
serde_yaml = "0.8"
tempfile = "3"

[dev-dependencies]
regex = "1"
