[package]
name = "agc"
version = "0.1.0"
edition = "2021"
publish = false

[dependencies]
anyhow = "1"
argh = "0.1"
regex = "1"
serde = { version = "1", features = ["derive"] }
serde_json = "1"
serde_yml = "*"
ureq = "3"
