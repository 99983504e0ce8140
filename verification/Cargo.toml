[package]
name = "procdash"
version = "0.1.0"
edition = "2021"
publish = false

[dependencies]
vt100 = "*"
tui-term = "*"
tokio = { version = "*", features = ["rt-multi-thread", "sync", "macros", "fs", "time"] }
portable-pty = "*"
crossterm = "*"
ratatui = "*"
anyhow = "*"
clap = { version = "*", features = ["derive"] }
parking_lot = "*"
bytes = "*"
