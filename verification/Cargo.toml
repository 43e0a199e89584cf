[package]
name = "yeti_vectors"
version = "0.1.0"
edition = "2021"
publish = false

[dependencies]
base64 = "=0.22.1"
serde_json = "=1.0.151"
fastembed = { version = "=7.1.1", default-features = false, features = ["image-models", "hf-hub"] }
