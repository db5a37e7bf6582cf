[package]
name = "gtypist_rs"
version = "0.1.0"
edition = "2021"
publish = false

[dependencies]
clap = "=4.6.7"
crossterm = "=0.29.0"
chrono = { version = "=0.4.45", features = ["serde"] }
serde = { version = "=1.0.229", features = ["derive"] }
thiserror = "=2.0.21"
