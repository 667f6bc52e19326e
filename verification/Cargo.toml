[package]
name = "carnet"
version = "0.1.0"
edition = "2021"
publish = false

[dependencies]
ropey = "1"
unicode-segmentation = "1"
unicode-width = "*"
sha2 = "0.10"
uuid = { version = "1", features = ["v4"] }
syntect = { version = "5", default-features = false, features = ["default-fancy"] }
clap = { version = "4", features = ["derive"] }
crossterm = "*"
ratatui = "*"
serde = { version = "1", features = ["derive"] }
toml = "*"
directories = "*"
tempfile = "3"
thiserror = "*"
arboard = { version = "3", default-features = false }
cap-std = "*"
libc = "0.2"
