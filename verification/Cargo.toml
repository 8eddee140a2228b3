[package]
name = "lila"
version = "0.1.0"
edition = "2021"
publish = false

[dependencies]
applications = "*"
directories = "*"
fuzzy-matcher = "*"
serde = { version = "*", features = ["derive"] }
serde_yaml = "*"
tracing = "*"
tracing-subscriber = { version = "*", features = ["env-filter"] }
uuid = { version = "*", features = ["v4"] }
