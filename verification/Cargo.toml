[package]
name = "lapin"
version = "0.1.0"
edition = "2021"
publish = false

[dependencies]
anyhow = "=1.0.104"
argh = "=0.1.19"
crossbeam = "=0.8.5"
crossterm = "=0.29.0"
log = "=0.4.35"
minimad = "=0.16.0"
serde = { version = "=1.0.229", features = ["derive"] }
serde_json = "1"
simplelog = "=0.12.2"
termimad = "=0.35.5"
