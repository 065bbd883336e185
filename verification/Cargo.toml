[package]
name = "starklings"
version = "0.1.0"
edition = "2021"
publish = false

[dependencies]
argh = "0.1"
console = "0.15"
indicatif = "0.17"
notify = "4"
serde = { version = "1", features = ["derive"] }
toml = "0.5"
