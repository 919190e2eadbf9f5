[package]
name = "cli_timer"
version = "0.1.0"
edition = "2021"
publish = false

[dependencies]
chrono = "0.4"
clap = { version = "4", features = ["derive"] }
crossterm = "0.25"
rand = "0.8"
rodio = "0.17"
tui = "0.19"
