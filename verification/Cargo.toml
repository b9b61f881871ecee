[package]
name = "knightty"
version = "0.1.0"
edition = "2021"
publish = false

[dependencies]
base64 = "=0.22.1"
unicode-segmentation = "=1.13.3"
url = "=2.5.8"
image = { version = "=0.25.10", default-features = false, features = ["png"] }
crossterm = "=0.28.1"
portable-pty = "=0.8.1"
alacritty_terminal = "=0.24.2"
serde = { version = "1", features = ["derive"] }
serde_json = "1"
toml = "0.8"
thiserror = "1"
