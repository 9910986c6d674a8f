[package]
name = "repo_launch"
version = "0.1.0"
edition = "2021"
publish = false

[dependencies]
which = "*"
git2 = "*"
clap = { version = "4", features = ["derive"] }

[dev-dependencies]
regex = "1"
