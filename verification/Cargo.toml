[package]
name = "git_forge"
version = "0.1.0"
edition = "2021"
publish = false

[dependencies]
anyhow = "*"
clap = { version = "*", features = ["derive"] }
clap_complete = "*"
confy = "*"
crossterm = "*"
csv = "*"
dialoguer = "*"
open = "*"
ratatui = "*"
reqwest = { version = "*", default-features = false, features = ["blocking", "json", "rustls-tls"] }
serde = { version = "*", features = ["derive"] }
serde_json = "*"
unicode-segmentation = "*"
unicode-width = "*"
url = "*"
