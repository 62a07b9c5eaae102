[package]
name = "rawssg"
version = "0.1.0"
edition = "2021"
publish = false

[dependencies]
serde = { version = "*", features = ["derive"] }
serde_json = "*"
serde_yaml = "*"
handlebars = "*"
chrono = "*"
clap = { version = "*", features = ["derive"] }
notify = "*"
walkdir = "*"
