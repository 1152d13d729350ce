[package]
name = "dualpane"
version = "0.1.0"
edition = "2021"
publish = false

[dependencies]
anyhow = "*"
chrono = "*"
clap = { version = "*", features = ["derive"] }
crossterm = "*"
dirs = "*"
portable-pty = "*"
ratatui = "*"
rpassword = "*"
ssh2 = "*"
