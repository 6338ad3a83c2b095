[package]
name = "stage_rs"
version = "0.1.0"
edition = "2021"
publish = false

[dependencies]
similar = "2"
git2 = { version = "0.19", default-features = false }
ratatui = "0.29"
crossterm = "0.28"
syntect = { version = "5", default-features = false, features = ["default-fancy"] }
color-eyre = "0.6"

[dev-dependencies]
tempfile = "3"
