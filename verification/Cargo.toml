[package]
name = "wax_core"
version = "0.1.0"
edition = "2021"
publish = false

[dependencies]
anyhow = "*"
candle-core = "*"
candle-nn = "*"
candle-transformers = "*"
clap = { version = "*", features = ["derive"] }
minijinja = "*"
serde = { version = "*", features = ["derive"] }
serde_json = "*"
sysinfo = "*"
thiserror = "*"
tokenizers = "*"

[dev-dependencies]
ahash = "*"
