[package]
name = "paraoxidizer"
version = "0.1.0"
edition = "2021"
publish = false

[dependencies]
sha2 = "0.10"
hex = "0.4"
ed25519-dalek = { version = "2", features = ["rand_core"] }
rand = "0.8"
half = "2"
byteorder = "1"
memmap2 = "0.9"
tempfile = "3"
serde = { version = "1", features = ["derive"] }
serde_json = "1"
toml = "0.8"
clap = { version = "4", features = ["derive"] }
anyhow = "1"
thiserror = "1"
colored = "2"
comfy-table = "7"
sysinfo = "0.30"
ureq = "2"
axum = "0.7"
tokio = { version = "1", features = ["full"] }
tower-http = { version = "0.5", features = ["cors"] }
tokio-stream = "0.1"
safetensors = "0.4"
ratatui = "0.26"
crossterm = "0.27"
