[package]
name = "lsr"
version = "0.1.0"
edition = "2021"
publish = false

[dependencies]
chrono = "=0.4.45"
clap = { version = "=4.6.7", features = ["derive"] }
unicode-width = "=0.1.14"
users = "=0.11.0"

[dev-dependencies]
tabular = "=0.2.0"
