[package]
name = "scapi"
version = "0.1.0"
edition = "2021"
publish = false

[dependencies]
tiny-keccak = { version = "=2.0.2", features = ["k12"] }
base64 = "=0.22.1"
hex = "=0.4.3"
serde = { version = "1", features = ["derive"] }
serde_json = "1"
anyhow = "1"
thiserror = "2"
url = "2"
reqwest = { version = "0.12", default-features = false, features = ["json"] }
