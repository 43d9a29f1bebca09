[package]
name = "goesdown"
version = "0.1.0"
edition = "2021"
publish = false

[dependencies]
chrono = "*"
url = "*"
clap = { version = "*", features = ["derive"] }
reqwest = { version = "*", default-features = false }
tokio = { version = "*", features = ["rt-multi-thread", "macros", "sync", "fs"] }
