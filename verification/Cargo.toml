[package]
name = "petool_core"
version = "0.1.0"
edition = "2021"
publish = false

[dependencies]
chrono = "=0.4.45"
chrono-tz = "=0.10.4"
cron = "=0.17.0"
regex = "=1.13.1"
serde = { version = "=1.0.229", features = ["derive"] }
serde_json = "=1.0.154"
base64 = "=0.22.1"
url = "=2.5.8"
uuid = { version = "=1.29.0", features = ["v4"] }
globset = "0.4"
walkdir = "2"
