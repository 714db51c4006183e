[package]
name = "chelotype"
version = "0.1.0"
edition = "2021"
publish = false

[dependencies]
alacritty_terminal = "*"
portable-pty = "*"
regex = "1"
serde = { version = "1", features = ["derive"] }
serde_json = "1"
