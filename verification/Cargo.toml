[package]
name = "sams"
version = "0.1.0"
edition = "2021"
publish = false

[dependencies]
anyhow = "1"
clap = { version = "4", features = ["derive"] }
clap_complete_command = "*"
colored = "2"
ignore = "0.4"
indicatif = "0.17"
inquire = "0.7"
schemars = "0.8"
serde = { version = "1", features = ["derive"] }
serde_json = "1"
tera = { version = "1", default-features = false }
toml = "0.8"
