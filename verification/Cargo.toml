[package]
name = "uptag"
version = "0.1.0"
edition = "2021"
publish = false

[dependencies]
regex = "=1.13.1"
anyhow = "=1.0.104"
env_logger = "=0.11.11"
indicatif = "0.17"
itertools = "=0.14.0"
lazy_static = "=1.5.1"
log = "=0.4.34"
marked-yaml = "=0.8.0"
reqwest = { version = "=0.12.28", features = ["blocking", "json"] }
serde = { version = "=1.0.229", features = ["derive"] }
structopt = "=0.3.26"
thiserror = "=1.0.69"
