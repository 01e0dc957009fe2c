[package]
name = "meme_bot"
version = "0.1.0"
edition = "2021"
publish = false

[dependencies]
serde_json = "=1.0.151"
reqwest = { version = "=0.12.28", default-features = false }
tokio = { version = "=1.53.2", features = ["rt-multi-thread", "macros", "sync", "fs"] }
inotify = "=0.11.5"
serenity = "=0.12.5"
futures-util = "=0.3.34"
