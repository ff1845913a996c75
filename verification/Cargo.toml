[package]
name = "defpool_proxy"
version = "0.1.0"
edition = "2021"
publish = false

[dependencies]
stratum-core = "*"
codec_sv2 = "*"
noise_sv2 = "*"
framing_sv2 = "*"
binary_sv2 = "*"
secp256k1 = { version = "*", features = ["rand"] }
bs58 = { version = "*", features = ["check"] }
rand = "*"
serde = { version = "*", features = ["derive"] }
serde_json = "*"
tokio = { version = "*", features = ["full"] }
reqwest = { version = "*", default-features = false, features = ["json"] }
toml = "*"
anyhow = "*"
tracing = "*"
