[package]
name = "zelda_server"
version = "0.1.0"
edition = "2021"
publish = false

[dependencies]
indexmap = "2"
tabled = "*"
serde = { version = "1", features = ["derive"] }
serde_json = "1"
dotenvy = "*"
