[package]
name = "connsaturator"
version = "0.1.0"
edition = "2021"
publish = false

[dependencies]
clap = { version = "4", features = ["derive"] }
indicatif = "0.17"
reqwest = "0.12"
tokio = { version = "1", features = ["rt-multi-thread", "macros", "sync", "time"] }
