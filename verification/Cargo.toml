[package]
name = "git-hook-installer"
version = "0.1.0"
edition = "2021"
publish = false

[dependencies]
anyhow = "1"
clap = { version = "4", features = ["derive"] }
dialoguer = "0.11"
time = { version = "0.3", features = ["formatting"] }
