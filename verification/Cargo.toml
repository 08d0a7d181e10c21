[package]
name = "atlas"
version = "0.1.0"
edition = "2021"
publish = false

[dependencies]
chrono = "0.4"
regex = "1"
hex = "0.4"
urlencoding = "2"
comrak = { version = "*", default-features = false }
rand = "0.9"
serde = { version = "1", features = ["derive"] }
serde_json = "1"
thiserror = "2"
log = "0.4"
figment = { version = "0.10", features = ["toml", "env"] }
