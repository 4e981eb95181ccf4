[package]
name = "tax_core"
version = "0.1.0"
edition = "2021"
publish = false

[dependencies]
actix-web = "4"
crossterm = "0.28"
env_logger = "0.11"
ratatui = "0.29"
serde = { version = "1", features = ["derive"] }
sqlite = "*"
