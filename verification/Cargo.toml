[package]
name = "peerdrive_ctl"
version = "0.1.0"
edition = "2021"
publish = false

[dependencies]
dirs = "*"
serde = { version = "*", features = ["derive"] }
serde_json = "*"
urlencoding = "*"
reqwest = { version = "*", default-features = false, features = ["blocking", "json"] }
