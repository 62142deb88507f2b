[package]
name = "pinentry-zellij"
version = "0.1.0"
edition = "2021"
publish = false

[dependencies]
zeroize = "1"
serde = { version = "1", features = ["derive"] }
serde_json = "1"
arrayvec = "0.7"
ratatui-core = "*"
ratatui-widgets = "*"
zellij-tile = "*"
dirs = "*"
libc = "0.2"
rpassword = "7"
tempfile = "3"
thiserror = "*"
tracing = "0.1"
tracing-subscriber = { version = "0.3", features = ["env-filter"] }
xattr = "*"
