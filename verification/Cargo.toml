[package]
name = "irium_cli"
version = "0.1.0"
edition = "2021"
publish = false

[dependencies]
ratatui = "*"
crossterm = "*"
ratatui-interact = "*"
ratatui-image = "*"
tachyonfx = "*"
arboard = "*"
dirs = "*"
serde = { version = "*", features = ["derive"] }
serde_json = "*"
toml = "*"
tokio = { version = "*", features = ["rt-multi-thread", "sync", "time"] }
reqwest = { version = "*", default-features = false, features = ["json"] }
image = { version = "*", default-features = false, features = ["png", "jpeg"] }
