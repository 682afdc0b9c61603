[package]
name = "roast"
version = "0.1.0"
edition = "2021"
publish = false

[dependencies]
rand = "0.8"
rocket = { version = "0.5", features = ["secrets", "tls", "json"] }
serde = { version = "1", features = ["derive"] }
toml = "0.8"
clap = { version = "4", features = ["derive"] }
lazy_static = "1"
crossbeam = "0.8"
ctrlc = "3"
rcgen = "0.11"
anyhow = "1"
