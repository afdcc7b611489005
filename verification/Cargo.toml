[package]
name = "async_chat"
version = "0.1.0"
edition = "2021"
publish = false

[dependencies]
anyhow = "1"
clap = { version = "4", features = ["derive", "env"] }
thiserror = "1"
tokio = { version = "1", features = ["sync", "rt-multi-thread", "macros", "net", "io-util", "io-std"] }
