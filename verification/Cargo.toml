[package]
name = "aterm"
version = "0.1.0"
edition = "2021"
publish = false

[dependencies]
portable-pty = "*"
base64 = "*"
serde = { version = "*", features = ["derive"] }
serde_json = "*"
plist = "*"
dirs = "*"
