[package]
name = "bmo"
version = "0.1.0"
edition = "2021"
publish = false

[dependencies]
anyhow = "1"
chrono = "0.4"
clap = { version = "4", features = ["derive", "env"] }
comfy-table = "7"
owo-colors = "4"
rusqlite = "*"
sea-query = "*"
sea-query-rusqlite = "*"
serde = { version = "1", features = ["derive"] }
serde_json = "1"
thiserror = "*"
toml = "*"
