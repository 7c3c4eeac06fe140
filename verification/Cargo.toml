[package]
name = "sui_sandbox"
version = "0.1.0"
edition = "2021"
publish = false

[dependencies]
anyhow = "1"
base64 = "0.22"
bcs = "0.1"
flate2 = "1"
move-core-types = "0.0.3"
napi = "3"
napi-derive = "3"
serde = { version = "1", features = ["derive"] }
serde_json = "1"
