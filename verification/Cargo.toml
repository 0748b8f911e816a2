[package]
name = "commit_diff"
version = "0.1.0"
edition = "2021"
publish = false

[dependencies]
git2 = { version = "*", default-features = false }
clap = { version = "4", features = ["derive"] }
log = "0.4"
custom_logger = "*"
