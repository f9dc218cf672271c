[package]
name = "picam"
version = "0.1.0"
edition = "2021"
publish = false

[dependencies]
anyhow = "=1.0.104"
crossbeam-channel = "=0.5.17"
i-slint-core = { version = "=1.18.1", default-features = false, features = ["std", "image-decoders"] }
serde = { version = "1", features = ["derive"] }
serde_json = "=1.0.154"
slint = { version = "=1.18.1", default-features = false, features = ["std", "compat-1-2"] }
toml = "=0.8.23"
