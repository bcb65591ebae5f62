[package]
name = "halloy"
version = "0.1.0"
edition = "2021"
publish = false

[dependencies]
chrono = "*"
seahash = "*"
serde = { version = "*", features = ["derive"] }
serde_json = "*"
