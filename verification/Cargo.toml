[package]
name = "adif_watch"
version = "0.1.0"
edition = "2021"
publish = false

[dependencies]
serde_json = "1"
url = "2"
ureq = { version = "3", features = ["platform-verifier"] }
notify = "*"

[dev-dependencies]
regex = "1"
