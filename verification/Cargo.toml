[package]
name = "paseto_maker"
version = "0.1.0"
edition = "2021"
publish = false

[dependencies]
rusty_paseto = "*"
ed25519-dalek = "2"
rand = "0.8"
serde_json = "1"
chrono = "*"
