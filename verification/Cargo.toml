[package]
name = "termaup"
version = "0.1.0"
edition = "2021"
publish = false

[dependencies]
anyhow = "*"
chrono = "*"
clap = { version = "*", features = ["derive"] }
comfy-table = "*"
crossterm = "*"
dialoguer = "*"
dirs = "*"
keyring = "*"
owo-colors = "*"
pulldown-cmark = "*"
ratatui = "*"
reqwest = { version = "*", default-features = false, features = ["json"] }
rpassword = "*"
serde = { version = "*", features = ["derive"] }
serde_json = "*"
termimad = "*"
thiserror = "*"
tokio = { version = "*", features = ["full"] }
toml = "*"
tracing = "*"
tracing-subscriber = { version = "*", features = ["env-filter", "json"] }
uuid = { version = "*", features = ["v4"] }
