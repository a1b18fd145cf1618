[package]
name = "forth_shell"
version = "0.1.0"
edition = "2021"
publish = false

[dependencies]
regex = "*"
clap = { version = "*", features = ["derive"] }
color-eyre = "*"
crossterm = "*"
ratatui = "*"
serialport = { version = "*", default-features = false }
