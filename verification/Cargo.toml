[package]
name = "daemon_console_lite"
version = "0.1.0"
edition = "2021"
publish = false

[dependencies]
chrono = "*"
crossterm = "*"
tokio = { version = "*", features = ["macros", "rt-multi-thread", "time"] }
unicode-width = "*"
