[package]
name = "pixelflut"
version = "0.1.0"
edition = "2021"
publish = false

[dependencies]
anyhow = "*"
image = "0.24"
rand = { version = "0.8", features = ["small_rng"] }
serde = { version = "*", features = ["derive"] }
serde_derive = "*"
tokio = { version = "*", features = ["sync"] }
tokio-uring = "*"
toml = "*"
