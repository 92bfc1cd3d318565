[package]
name = "wtr"
version = "0.1.0"
edition = "2021"
publish = false

[dependencies]
anyhow = "=1.0.104"
clap = { version = "=4.6.7", features = ["derive"] }
dirs = "=7.0.0"
reqwest = { version = "=0.12.28", default-features = false, features = ["rustls-tls"] }
rustdoc-types = "=0.57.4"
serde = { version = "=1.0.229", features = ["derive"] }
serde_json = "=1.0.154"
termimad = "=0.35.5"
tokio = { version = "=1.54.1", features = ["rt-multi-thread", "macros"] }
zstd = "=0.14.3"
