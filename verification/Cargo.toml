[package]
name = "pretty_run"
version = "0.1.0"
edition = "2021"
publish = false

[dependencies]
anyhow = "1"
clap = { version = "3.2", features = ["derive"] }
console = "0.15"
indicatif = "0.17"
nonempty = "0.8"
tempfile = "3"
