[package]
name = "nockup"
version = "0.1.0"
edition = "2021"
publish = false

[dependencies]
anyhow = "=1.0.104"
colored = "=2.2.0"
dirs = "=5.0.1"
handlebars = "=6.4.4"
serde = { version = "=1.0.229", features = ["derive"] }
serde_json = "=1.0.154"
tokio = { version = "=1.54.1", features = ["fs", "process", "rt-multi-thread", "macros", "io-util", "io-std"] }
toml = "=0.8.23"
