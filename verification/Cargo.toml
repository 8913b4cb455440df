[package]
name = "repoflow"
version = "0.1.0"
edition = "2021"
publish = false

[dependencies]
glob = "*"
cron = "*"
chrono = "*"
semver = "*"
serde_json = "*"
which = "*"
walkdir = "*"
serde = { version = "*", features = ["derive"] }
