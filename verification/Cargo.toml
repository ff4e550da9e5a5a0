[package]
name = "chromium_fetch"
version = "0.1.0"
edition = "2021"
publish = false

[dependencies]
anyhow = "*"
clap = { version = "*", features = ["derive"] }
env_logger = "*"
glob-match = "*"
indexmap = "*"
indicatif = "*"
itertools = "*"
rayon = "*"
serde = { version = "*", features = ["derive"] }
serde_json = "*"
serde-xml-rs = "*"
strum = { version = "*", features = ["derive"] }
url-escape = "*"
