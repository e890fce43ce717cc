[package]
name = "reqq"
version = "0.3.0"
edition = "2021"
publish = false

[dependencies]
clap = { version = "=4.6.7", features = ["derive"] }
handlebars = "=6.4.4"
http = "=1.5.0"
reqwest = { version = "=0.12.28", features = ["blocking"] }
serde_json = { version = "=1.0.154", features = ["float_roundtrip"] }
url = "=2.5.8"
walkdir = "=2.5.0"

[dev-dependencies]
regex = "=1.13.1"
