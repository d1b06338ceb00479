[package]
name = "qork"
version = "1.1.1"
edition = "2021"
publish = false

[dependencies]
clap = { version = "4", features = ["derive", "env"] }
serde_json = "1"
thiserror = "2"
ureq = { version = "2", features = ["json"] }
url = "2"
