[package]
name = "feder"
version = "0.1.0"
edition = "2021"
publish = false

[dependencies]
anyhow = "1"
base64 = "0.22"
chrono = "0.4"
iri-string = "0.7"
reqwest = { version = "0.12", default-features = false, features = ["json"] }
rsa = "0.9"
serde = { version = "1", features = ["derive"] }
serde_json = "1"
sha2 = { version = "0.10", features = ["oid"] }
url = "2"

[dev-dependencies]
rand = "0.8"
