[package]
name = "niteo_lint"
version = "0.1.0"
edition = "2021"
publish = false

[dependencies]
globset = "=0.4.21"
regex = "*"
serde = { version = "=1.0.229", features = ["derive"] }
serde_json = "=1.0.154"
