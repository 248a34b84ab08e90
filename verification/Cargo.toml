[package]
name = "futeinf"
version = "0.1.0"
edition = "2021"
publish = false

[dependencies]
chrono = { version = "0.4", default-features = false, features = ["clock", "std", "serde"] }
itertools = "0.13"
rand = "0.8"
serde = { version = "1", features = ["derive"] }
serde_json = "1"
