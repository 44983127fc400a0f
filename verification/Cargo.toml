[package]
name = "mc_poller"
version = "0.1.0"
edition = "2021"
publish = false

[dependencies]
rust-mc-status = "*"
tokio = { version = "1", features = ["macros", "rt-multi-thread"] }
clap = { version = "4", features = ["derive"] }
chrono = "0.4"
boxen = "*"
inline_colorization = "*"
hostname-validator = "*"
strip-ansi-escapes = "*"
serde_json = "1"
