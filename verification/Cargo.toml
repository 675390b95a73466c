[package]
name = "scoopie"
version = "0.1.0"
edition = "2021"
publish = false

[dependencies]
url = "2"
sha2 = "0.10"
serde_json = "1"
argh = "0.1"
trauma = "*"
tokio = { version = "1", features = ["rt-multi-thread"] }
rayon = "1"
