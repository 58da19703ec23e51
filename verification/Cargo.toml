[package]
name = "pesti"
version = "0.1.0"
edition = "2021"
publish = false

[dependencies]
byteorder = "=1.5.0"
half = "=2.7.1"
safetensors = "=0.8.0"
rusqlite = "=0.41.1"
tiktoken-rs = "=0.12.1"
tokenizers = { version = "=0.23.2", default-features = false, features = ["onig"] }
tokio = { version = "=1.54.1", features = ["sync", "rt", "macros", "time"] }
clap = { version = "=4.6.7", features = ["derive"] }
serde = { version = "=1.0.229", features = ["derive"] }
serde_json = "=1.0.154"
rand = "*"
chrono = "*"
