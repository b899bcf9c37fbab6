[package]
name = "cbak"
version = "0.1.0"
edition = "2021"
publish = false

[dependencies]
fancy-regex = "*"
interprocess = "1"
serde = { version = "*", features = ["derive"] }
toml = "*"
clap = { version = "*", features = ["derive", "cargo"] }
cli-table = "*"
log = "*"
fern = "*"
chrono = "*"
