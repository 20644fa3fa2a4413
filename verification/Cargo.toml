[package]
name = "chatsounds_loader"
version = "0.1.0"
edition = "2021"
publish = false

[dependencies]
anyhow = "1"
futures = "0.3"
hound = "3"
rand = "0.9"
tokio = { version = "1", features = ["fs", "macros", "rt-multi-thread"] }
