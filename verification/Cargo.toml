[package]
name = "fastermail"
version = "0.1.0"
edition = "2021"
publish = false

[dependencies]
serde = { version = "1", features = ["derive"] }
serde_json = "1"
toml = "*"
ureq = { version = "3", features = ["json"] }
clap = { version = "4", features = ["derive"] }
console = "*"
indicatif = "*"
inquire = "*"
thiserror = "2"
