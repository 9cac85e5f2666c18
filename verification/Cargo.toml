[package]
name = "cmake_runner"
version = "0.1.0"
edition = "2021"
publish = false

[dependencies]
ansi-to-tui = "*"
crossterm = { version = "*", features = ["event-stream"] }
eyre = "*"
ratatui = "*"
tokio = { version = "*", features = ["rt", "macros", "sync", "io-util", "process", "time"] }
tokio-stream = "*"
