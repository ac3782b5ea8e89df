[package]
name = "pnpm_timings"
version = "0.1.0"
edition = "2021"
publish = false

[dependencies]
serde_json = "1"
num-format = "0.4"
clap = { version = "4", features = ["derive"] }
chrono = { version = "0.4", features = ["serde"] }
