[package]
name = "zui"
version = "0.1.0"
edition = "2021"
publish = false

[dependencies]
anyhow = "*"
async-trait = "*"
crossterm = "0.25"
ipnet = "*"
log = "*"
serde = { version = "*", features = ["derive"] }
serde_bytes = "*"
serde_with = "*"
tokio = { version = "*", features = ["full"] }
tui = "*"
