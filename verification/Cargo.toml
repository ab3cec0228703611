[package]
name = "pitou"
version = "0.1.0"
edition = "2021"
publish = false

[dependencies]
regex = "1"
serde = { version = "1", features = ["derive"] }
tokio = { version = "1", features = ["rt", "rt-multi-thread", "sync", "fs", "macros"] }
async-recursion = "1"
dirs = "*"
fs_extra = "1"
trash = "*"
