[package]
name = "lumos_core"
version = "0.1.0"
edition = "2021"
publish = false

[dependencies]
anyhow = "=1.0.104"
clap = { version = "=4.6.7", features = ["derive"] }
colored = "=2.2.0"
dashmap = "=6.2.1"
notify = "=6.1.1"
regex = "=1.13.1"
semver = "=1.0.28"
serde = { version = "=1.0.229", features = ["derive"] }
serde_json = "=1.0.154"
syn = { version = "=2.0.119", features = ["full", "extra-traits"] }
tokio = { version = "=1.54.1", features = ["rt-multi-thread", "macros", "io-std"] }
toml = "=0.8.23"
tower-lsp = "=0.20.0"
which = "=8.0.6"
