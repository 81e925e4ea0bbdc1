[package]
name = "campaign_reports"
version = "0.1.0"
edition = "2021"
publish = false

[dependencies]
base64 = "*"
chrono = "*"
dirs = "*"
opener = "*"
reqwest = { version = "*", default-features = false, features = ["blocking"] }
serde_json = "*"
url = "*"
