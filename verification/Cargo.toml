[package]
name = "speakoflow"
version = "0.1.0"
edition = "2021"
publish = false

[dependencies]
strsim = "0.11"
regex = "1"
chrono = "0.4"
serde = { version = "1", features = ["derive"] }
serde_json = "1"
clap = { version = "4", features = ["derive"] }
