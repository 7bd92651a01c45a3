[package]
name = "oneup"
version = "0.1.0"
edition = "2021"
publish = false

[dependencies]
anyhow = "=1.0.104"
chrono = "=0.4.45"
clap = { version = "=4.6.7", features = ["derive"] }
git2 = "=0.21.0"
reqwest = { version = "=0.13.5", features = ["blocking"] }
serde_json = { version = "=1.0.154", features = ["preserve_order"] }
toml_edit = "=0.25.17"
