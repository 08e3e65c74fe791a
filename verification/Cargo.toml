[package]
name = "raur"
version = "0.1.0"
edition = "2021"
publish = false

[dependencies]
clap = "4"
reqwest = { version = "0.12", features = ["blocking", "json"] }
serde = { version = "1", features = ["derive"] }
