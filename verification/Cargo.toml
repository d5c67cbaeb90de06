[package]
name = "gitu"
version = "0.1.0"
edition = "2021"
publish = false

[dependencies]
crossterm = "0.28"
etcetera = "0.10"
figment = { version = "0.10", features = ["toml"] }
git2 = { version = "0.20", default-features = false }
itertools = "0.14"
serde = { version = "1", features = ["derive"] }
serde_json = "1"
ureq = { version = "2", features = ["json"] }
