[package]
name = "worktree"
version = "0.1.0"
edition = "2021"
publish = false

[dependencies]
anyhow = "*"
clap = { version = "*", features = ["derive"] }
fs2 = "*"
serde = { version = "*", features = ["derive"] }
toml = "*"
