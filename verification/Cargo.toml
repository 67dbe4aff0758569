[package]
name = "croni"
version = "0.5.6"
edition = "2021"
publish = false

[dependencies]
adblock = "0.13"
anyhow = "1"
semver = "1"
serde = { version = "1", features = ["derive"] }
serde_json = "1"
sha2 = "0.10"
url = "2"
