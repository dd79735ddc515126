[package]
name = "winshell"
version = "0.1.0"
edition = "2021"
publish = false

[dependencies]
portable-pty = "*"
alacritty_terminal = "*"
anyhow = "*"
directories = "*"
serde = { version = "1", features = ["derive"] }
toml = "*"
