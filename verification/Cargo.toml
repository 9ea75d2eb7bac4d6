[package]
name = "tapestry"
version = "0.1.0"
edition = "2021"
publish = false

[dependencies]
clap = { version = "4", features = ["derive"] }
comfy-table = "7"
env_logger = "0.11"
inquire = "0.7"
log = "0.4"
minijinja = { version = "1", features = ["loader"] }
regex = "1"
serde = { version = "1", features = ["derive"] }
sqlformat = "0.2"
toml = "0.8"
