[package]
name = "game_coordinator"
version = "0.1.0"
edition = "2021"
publish = false

[dependencies]
rand = "0.7"
actix = "0.10"
actix-web = { version = "3", features = ["openssl"] }
actix-web-actors = "3"
openssl = "0.10"
serde = { version = "1", features = ["derive"] }
serde_json = "1"
