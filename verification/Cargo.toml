[package]
name = "soksak-sidecar-speech-sherpa"
version = "0.1.0"
edition = "2021"
publish = false

[dependencies]
anyhow = "1"
base64 = "0.22"
serde = { version = "1", features = ["derive"] }
serde_json = "1"
sherpa-rs-sys = "*"
