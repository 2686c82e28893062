[package]
name = "contract_extrinsics"
version = "0.1.0"
edition = "2021"
publish = false

[dependencies]
anyhow = "*"
colored = "*"
jsonrpsee = { version = "=0.26.1", features = ["ws-client"] }
parity-scale-codec = "*"
serde = { version = "*", features = ["derive"] }
serde_json = "*"
sp-core = "=43.0.0"
tokio = { version = "*", features = ["rt"] }
url = "=2.5.8"
