[package]
name = "editor_core"
version = "0.1.0"
edition = "2021"
publish = false

[dependencies]
iced = { version = "0.12", default-features = false, features = ["highlighter", "tokio"] }
rfd = "0.13"
tokio = { version = "1", features = ["fs"] }
