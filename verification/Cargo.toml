[package]
name = "git-redate"
version = "0.1.1"
edition = "2021"
publish = false

[dependencies]
jiff = "0.2"
gix = "*"
ratatui = "*"
clap = { version = "4", features = ["derive"] }
anyhow = "1"
thiserror = "2"
