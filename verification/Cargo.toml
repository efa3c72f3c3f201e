[package]
name = "js_randomness_predictor"
version = "0.1.0"
edition = "2021"
publish = false

[dependencies]
z3 = "0.12"
clap = { version = "4", features = ["derive"] }
serde = { version = "1", features = ["derive"] }
serde_json = "1"
